//! Resolves the columns to export against the table's catalog.

use crate::catalog::{column_from_catalog, column_of, split_table_name, CatalogColumn};
use crate::definition::{
    column_names, column_views, strictly_ascending, ColumnDefinition, ColumnView, TableDefinition,
};
use crate::error::Error;
use crate::meta::ColumnDataProvider;
use crate::order::{
    lemma_less_irreflexive, lemma_less_total, lemma_less_transitive, seq_less, str_equal, str_less,
};
use vstd::prelude::*;

verus! {

/// The characters of each string, in order.
pub open spec fn string_views(v: Seq<String>) -> Seq<Seq<char>> {
    v.map_values(|s: String| s@)
}

/// The index of the last column named `name`, or -1 where there is none.
pub open spec fn last_index_named(cols: Seq<ColumnView>, name: Seq<char>) -> int
    decreases cols.len(),
{
    if cols.len() == 0 {
        -1
    } else if cols.last().name == name {
        cols.len() - 1
    } else {
        last_index_named(cols.drop_last(), name)
    }
}

/// Some column of `cols` is named `name`.
pub open spec fn is_discovered(cols: Seq<ColumnView>, name: Seq<char>) -> bool {
    exists|i: int| 0 <= i < cols.len() && (#[trigger] cols[i]).name == name
}

/// The column that a name selects: the last one of that name, as a map keyed
/// by name keeps the last entry.
pub open spec fn selected(cols: Seq<ColumnView>, name: Seq<char>) -> ColumnView {
    cols[last_index_named(cols, name)]
}

/// The last column of a name is named so and no later one is; there is one
/// exactly where some column has the name.
pub proof fn lemma_last_index_named(cols: Seq<ColumnView>, name: Seq<char>)
    ensures
        -1 <= last_index_named(cols, name) < cols.len(),
        last_index_named(cols, name) >= 0 <==> is_discovered(cols, name),
        last_index_named(cols, name) >= 0 ==> cols[last_index_named(cols, name)].name == name,
        forall|k: int|
            last_index_named(cols, name) < k < cols.len() ==> (#[trigger] cols[k]).name != name,
    decreases cols.len(),
{
    if cols.len() > 0 && cols.last().name != name {
        let rest = cols.drop_last();
        lemma_last_index_named(rest, name);
        if is_discovered(cols, name) {
            let i = choose|i: int| 0 <= i < cols.len() && (#[trigger] cols[i]).name == name;
            assert(rest[i].name == name);
        }
        if is_discovered(rest, name) {
            let i = choose|i: int| 0 <= i < rest.len() && (#[trigger] rest[i]).name == name;
            assert(cols[i].name == name);
        }
        assert forall|k: int| last_index_named(cols, name) < k < cols.len() implies (
        #[trigger] cols[k]).name != name by {
            if k < cols.len() - 1 {
                assert(rest[k] == cols[k]);
            }
        }
    } else if cols.len() > 0 {
        assert(cols[cols.len() - 1].name == name);
    }
}

/// Every requested name is the name of a discovered column.
pub open spec fn all_discovered(requested: Seq<Seq<char>>, cols: Seq<ColumnView>) -> bool {
    forall|i: int| 0 <= i < requested.len() ==> is_discovered(cols, #[trigger] requested[i])
}

/// `u` is requested and undiscovered, and sorts before every other requested
/// name that is undiscovered.
pub open spec fn is_smallest_unknown(
    u: Seq<char>,
    requested: Seq<Seq<char>>,
    cols: Seq<ColumnView>,
) -> bool {
    &&& requested.contains(u)
    &&& !is_discovered(cols, u)
    &&& forall|n: Seq<char>|
        #![trigger requested.contains(n)]
        requested.contains(n) && !is_discovered(cols, n) ==> n == u || seq_less(u, n)
}

/// The columns selected by the requested names, in the order of the names.
pub open spec fn selection(requested: Seq<Seq<char>>, cols: Seq<ColumnView>) -> Seq<ColumnView> {
    requested.map_values(|n: Seq<char>| selected(cols, n))
}

/// `r` is the resolution of the requested names against the discovered
/// columns: where every name is discovered, the table with the selected
/// columns in the order of the names; else `UnknownColumn` with the smallest
/// name that is not.
pub open spec fn resolves(
    table_name: Seq<char>,
    requested: Seq<Seq<char>>,
    cols: Seq<ColumnView>,
    r: Result<TableDefinition, Error>,
) -> bool {
    match r {
        Ok(def) => {
            &&& all_discovered(requested, cols)
            &&& def@.table_name == table_name
            &&& def@.columns == selection(requested, cols)
            &&& column_names(def@.columns) == requested
            &&& def.wf()
        },
        Err(e) => {
            &&& !all_discovered(requested, cols)
            &&& e matches Error::UnknownColumn(u)
            &&& is_smallest_unknown(u@, requested, cols)
        },
    }
}

/// Every catalog entry has a type with a data kind.
pub open spec fn all_types_known(catalog: Seq<CatalogColumn>) -> bool {
    forall|i: int| 0 <= i < catalog.len() ==> (#[trigger] column_of(catalog[i])) is Some
}

/// The columns that the catalog entries describe, where all their types are
/// known.
pub open spec fn catalog_views(catalog: Seq<CatalogColumn>) -> Seq<ColumnView> {
    catalog.map_values(|c: CatalogColumn| column_of(c)->0)
}

/// `t` is the type name of the first catalog entry whose type has no data
/// kind.
pub open spec fn is_first_unknown_type(t: Seq<char>, catalog: Seq<CatalogColumn>) -> bool {
    exists|k: int|
        0 <= k < catalog.len() && column_of(#[trigger] catalog[k]) is None && t
            == catalog[k].data_type@ && forall|j: int|
            0 <= j < k ==> (#[trigger] column_of(catalog[j])) is Some
}

/// The column definitions of catalog entries, in order; fails on the first
/// entry whose type has no data kind.
pub fn columns_from_catalog(catalog: &Vec<CatalogColumn>) -> (r: Result<
    Vec<ColumnDefinition>,
    Error,
>)
    ensures
        all_types_known(catalog@) ==> (r matches Ok(cols) && column_views(cols@) == catalog_views(
            catalog@,
        )),
        !all_types_known(catalog@) ==> (r matches Err(Error::UnknownDataType(t))
            && is_first_unknown_type(t@, catalog@)),
{
    let mut cols: Vec<ColumnDefinition> = Vec::new();
    let mut i: usize = 0;
    while i < catalog.len()
        invariant
            i <= catalog@.len(),
            forall|j: int| 0 <= j < i ==> (#[trigger] column_of(catalog@[j])) is Some,
            column_views(cols@) == catalog_views(catalog@).subrange(0, i as int),
        decreases catalog@.len() - i,
    {
        match column_from_catalog(&catalog[i]) {
            Ok(c) => {
                let ghost prev = cols@;
                cols.push(c);
                assert(column_views(cols@) =~= column_views(prev).push(c@));
                assert(catalog_views(catalog@).subrange(0, i + 1) =~= catalog_views(
                    catalog@,
                ).subrange(0, i as int).push(c@));
            },
            Err(e) => {
                assert(column_of(catalog@[i as int]) is None);
                assert(!all_types_known(catalog@));
                return Err(e);
            },
        }
        i = i + 1;
    }
    assert(catalog_views(catalog@).subrange(0, i as int) =~= catalog_views(catalog@));
    Ok(cols)
}

/// The index of the last column named `name`, if there is one.
fn find_last_named(cols: &Vec<ColumnDefinition>, name: &str) -> (r: Option<usize>)
    ensures
        match r {
            Some(j) => j == last_index_named(column_views(cols@), name@),
            None => !is_discovered(column_views(cols@), name@),
        },
{
    let ghost views = column_views(cols@);
    proof {
        lemma_last_index_named(views, name@);
    }
    let mut j: usize = cols.len();
    while j > 0
        invariant
            j <= cols@.len(),
            views == column_views(cols@),
            forall|k: int| j <= k < views.len() ==> (#[trigger] views[k]).name != name@,
        decreases j,
    {
        j = j - 1;
        if str_equal(cols[j].column_name(), name) {
            assert(views[j as int] == cols@[j as int]@);
            assert(views[j as int].name == name@);
            proof {
                lemma_last_index_named(views, name@);
                let idx = last_index_named(views, name@);
                if idx < j {
                    assert(views[j as int].name != name@);
                }
                if idx > j {
                    assert(views[idx].name != name@);
                }
            }
            return Some(j);
        }
        assert(views[j as int] == cols@[j as int]@);
    }
    None
}

/// What a selection builder holds: the table's name and the requested column
/// names, each once, in ascending order.
pub struct SelectionView {
    pub table_name: Seq<char>,
    pub requested: Seq<Seq<char>>,
}

/// Builds a `TableDefinition` from a table name and the names of the columns to
/// export.
pub struct TableSelectionBuilder {
    table_name: String,
    /// The requested names, each once, in ascending order.
    column_names: Vec<String>,
}

impl View for TableSelectionBuilder {
    type V = SelectionView;

    closed spec fn view(&self) -> SelectionView {
        SelectionView { table_name: self.table_name@, requested: string_views(self.column_names@) }
    }
}

impl TableSelectionBuilder {
    #[verifier::type_invariant]
    spec fn requested_ascending(self) -> bool {
        strictly_ascending(string_views(self.column_names@))
    }

    /// A builder for the table `table_name` (`owner.table` names the schema
    /// too) with no columns requested yet.
    pub fn new(table_name: &str) -> (r: TableSelectionBuilder)
        ensures
            r@.table_name == table_name@,
            r@.requested == Seq::<Seq<char>>::empty(),
    {
        let r = TableSelectionBuilder { table_name: table_name.to_owned(), column_names: Vec::new() };
        assert(string_views(r.column_names@) =~= Seq::<Seq<char>>::empty());
        r
    }

    /// Adds a column name to the request; a name given twice counts once.
    pub fn with(self, column_name: &str) -> (r: TableSelectionBuilder)
        ensures
            r@.table_name == self@.table_name,
            forall|n: Seq<char>|
                r@.requested.contains(n) <==> (self@.requested.contains(n) || n == column_name@),
            strictly_ascending(r@.requested),
    {
        proof {
            use_type_invariant(&self);
        }
        let TableSelectionBuilder { table_name, mut column_names } = self;
        let ghost old_vec = column_names@;
        let ghost names = string_views(column_names@);
        let mut p: usize = 0;
        while p < column_names.len()
            invariant
                p <= column_names@.len(),
                column_names@ == old_vec,
                names == string_views(old_vec),
                forall|k: int| 0 <= k < p ==> seq_less(#[trigger] names[k], column_name@),
            ensures
                p < column_names@.len() ==> !seq_less(names[p as int], column_name@),
            decreases column_names@.len() - p,
        {
            if !str_less(column_names[p].as_str(), column_name) {
                break;
            }
            p = p + 1;
        }
        if p < column_names.len() && str_equal(column_names[p].as_str(), column_name) {
            assert(names[p as int] == column_name@);
            return TableSelectionBuilder { table_name, column_names };
        }
        column_names.insert(p, column_name.to_owned());
        proof {
            let s = string_views(column_names@);
            let name = column_name@;
            assert(s =~= names.insert(p as int, name));
            names.insert_ensures(p as int, name);
            if p < names.len() {
                assert(names[p as int] != name);
                assert(!seq_less(names[p as int], name));
                lemma_less_total(names[p as int], name);
            }
            assert forall|i: int, j: int| 0 <= i < j < s.len() implies seq_less(
                #[trigger] s[i],
                #[trigger] s[j],
            ) by {
                if j < p {
                    assert(s[i] == names[i] && s[j] == names[j]);
                } else if j == p {
                    assert(s[i] == names[i]);
                } else if i < p {
                    assert(s[i] == names[i] && s[j] == names[j - 1]);
                } else if i == p {
                    assert(s[j] == names[j - 1]);
                    if j - 1 > p {
                        lemma_less_transitive(name, names[p as int], names[j - 1]);
                    }
                } else {
                    assert(s[i] == names[i - 1] && s[j] == names[j - 1]);
                }
            }
            assert forall|n: Seq<char>| s.contains(n) <==> (names.contains(n) || n == name) by {
                if s.contains(n) {
                    let i = choose|i: int| 0 <= i < s.len() && s[i] == n;
                    if i < p {
                        assert(names[i] == n);
                    } else if i > p {
                        assert(names[i - 1] == n);
                    }
                }
                if names.contains(n) {
                    let i = choose|i: int| 0 <= i < names.len() && names[i] == n;
                    if i < p {
                        assert(s[i] == n);
                    } else {
                        assert(s[i + 1] == n);
                    }
                }
                if n == name {
                    assert(s[p as int] == n);
                }
            }
        }
        TableSelectionBuilder { table_name, column_names }
    }

    /// Resolves the requested columns against the columns that the catalog
    /// reported. Fails with the smallest requested name that no column has;
    /// otherwise the definition holds, for each requested name in ascending
    /// order, the (last) column of that name.
    pub fn build_from_columns(self, discovered: &Vec<ColumnDefinition>) -> (r: Result<
        TableDefinition,
        Error,
    >)
        ensures
            resolves(self@.table_name, self@.requested, column_views(discovered@), r),
    {
        proof {
            use_type_invariant(&self);
        }
        let ghost req = self@.requested;
        let ghost disc = column_views(discovered@);
        let TableSelectionBuilder { table_name, column_names } = self;
        let mut cols: Vec<ColumnDefinition> = Vec::new();
        let mut i: usize = 0;
        while i < column_names.len()
            invariant
                req == self@.requested,
                req == string_views(column_names@),
                strictly_ascending(req),
                disc == column_views(discovered@),
                i <= column_names@.len(),
                forall|k: int| 0 <= k < i ==> is_discovered(disc, #[trigger] req[k]),
                column_views(cols@) == selection(req, disc).subrange(0, i as int),
            decreases column_names@.len() - i,
        {
            let ghost n = req[i as int];
            assert(column_names@[i as int]@ == n);
            match find_last_named(discovered, column_names[i].as_str()) {
                None => {
                    proof {
                        assert(req.contains(n));
                        assert(!is_discovered(disc, req[i as int]));
                        assert forall|m: Seq<char>|
                            #![trigger req.contains(m)]
                            req.contains(m) && !is_discovered(disc, m) implies m == n || seq_less(
                                n,
                                m,
                            ) by {
                            let j = choose|j: int| 0 <= j < req.len() && req[j] == m;
                            if j < i {
                            } else if j > i {
                                assert(seq_less(req[i as int], req[j]));
                            }
                        }
                    }
                    let name = column_names[i].clone();
                    assert(name@ == n);
                    return Err(Error::UnknownColumn(name));
                },
                Some(j) => {
                    proof {
                        lemma_last_index_named(disc, n);
                    }
                    let c = discovered[j].duplicate();
                    let ghost before = cols@;
                    cols.push(c);
                    assert(column_views(cols@) =~= column_views(before).push(c@));
                    assert(selection(req, disc).subrange(0, i + 1) =~= selection(req, disc).subrange(
                        0,
                        i as int,
                    ).push(selected(disc, n)));
                },
            }
            i = i + 1;
        }
        assert(selection(req, disc).subrange(0, i as int) =~= selection(req, disc));
        proof {
            lemma_selection_names(req, disc);
        }
        Ok(TableDefinition::from_parts(table_name, cols))
    }

    /// Resolves the requested columns against the catalog's description of
    /// the table. Fails with `UnknownDataType` on the first entry whose type
    /// has no data kind; otherwise as `build_from_columns`.
    pub fn build_from_catalog(self, catalog: &Vec<CatalogColumn>) -> (r: Result<
        TableDefinition,
        Error,
    >)
        ensures
            all_types_known(catalog@) ==> resolves(
                self@.table_name,
                self@.requested,
                catalog_views(catalog@),
                r,
            ),
            !all_types_known(catalog@) ==> (r matches Err(Error::UnknownDataType(t))
                && is_first_unknown_type(t@, catalog@)),
    {
        let discovered = columns_from_catalog(catalog)?;
        self.build_from_columns(&discovered)
    }

    /// Splits the table's name into owner and table, looks the table's
    /// columns up in the catalog, and resolves the requested columns against
    /// them (see `build_from_catalog`). The catalog's own errors are passed
    /// on.
    pub fn build<P: ColumnDataProvider>(self, conn: &P) -> (r: Result<TableDefinition, Error>)
        ensures
            r matches Ok(def) ==> {
                &&& def@.table_name == self@.table_name
                &&& column_names(def@.columns) == self@.requested
                &&& def.wf()
            },
    {
        let (owner, table) = split_table_name(self.table_name.as_str());
        let owner_ref: Option<&str> = match &owner {
            Some(o) => Some(o.as_str()),
            None => None,
        };
        let catalog = conn.query_column_data(table.as_str(), owner_ref)?;
        self.build_from_catalog(&catalog)
    }
}

/// The names of the selected columns are the requested names.
pub proof fn lemma_selection_names(requested: Seq<Seq<char>>, cols: Seq<ColumnView>)
    requires
        all_discovered(requested, cols),
    ensures
        column_names(selection(requested, cols)) == requested,
{
    assert forall|i: int| 0 <= i < requested.len() implies (#[trigger] column_names(
        selection(requested, cols),
    )[i]) == requested[i] by {
        lemma_last_index_named(cols, requested[i]);
    }
    assert(column_names(selection(requested, cols)) =~= requested);
}

} // verus!

verus! {

/// Two sequences that hold the same names, each in strictly ascending order,
/// are the same: a set of names has one ascending order.
pub proof fn lemma_ascending_unique(a: Seq<Seq<char>>, b: Seq<Seq<char>>)
    requires
        strictly_ascending(a),
        strictly_ascending(b),
        forall|n: Seq<char>| a.contains(n) <==> b.contains(n),
    ensures
        a == b,
    decreases a.len(),
{
    if a.len() == 0 {
        if b.len() > 0 {
            assert(b.contains(b[0]));
        }
        assert(a =~= b);
    } else {
        assert(a.contains(a[0]));
        assert(b.len() > 0);
        assert(b.contains(b[0]));
        if a[0] != b[0] {
            let j = choose|j: int| 0 <= j < a.len() && a[j] == b[0];
            let k = choose|k: int| 0 <= k < b.len() && b[k] == a[0];
            assert(seq_less(a[0], a[j]));
            assert(seq_less(b[0], b[k]));
            lemma_less_total(a[0], b[0]);
        }
        let a2 = a.drop_first();
        let b2 = b.drop_first();
        assert forall|n: Seq<char>| a2.contains(n) <==> b2.contains(n) by {
            if a2.contains(n) {
                let j = choose|j: int| 0 <= j < a2.len() && a2[j] == n;
                assert(a[j + 1] == n && seq_less(a[0], n));
                lemma_less_irreflexive(n);
                assert(a.contains(n));
                let k = choose|k: int| 0 <= k < b.len() && b[k] == n;
                assert(k != 0);
                assert(b2[k - 1] == n);
            }
            if b2.contains(n) {
                let j = choose|j: int| 0 <= j < b2.len() && b2[j] == n;
                assert(b[j + 1] == n && seq_less(b[0], n));
                lemma_less_irreflexive(n);
                assert(b.contains(n));
                let k = choose|k: int| 0 <= k < a.len() && a[k] == n;
                assert(k != 0);
                assert(a2[k - 1] == n);
            }
        }
        assert forall|i: int, j: int| 0 <= i < j < a2.len() implies seq_less(
            #[trigger] a2[i],
            #[trigger] a2[j],
        ) by {
            assert(a2[i] == a[i + 1] && a2[j] == a[j + 1]);
        }
        assert forall|i: int, j: int| 0 <= i < j < b2.len() implies seq_less(
            #[trigger] b2[i],
            #[trigger] b2[j],
        ) by {
            assert(b2[i] == b[i + 1] && b2[j] == b[j + 1]);
        }
        lemma_ascending_unique(a2, b2);
        assert(a =~= seq![a[0]] + a2);
        assert(b =~= seq![b[0]] + b2);
    }
}

/// Where every requested name is discovered, the names of the resolved
/// columns, which make the header, are the requested names in ascending
/// order: they equal every strictly ascending arrangement of them.
pub proof fn lemma_resolved_header(
    requested: Seq<Seq<char>>,
    cols: Seq<ColumnView>,
    sorted: Seq<Seq<char>>,
)
    requires
        strictly_ascending(requested),
        all_discovered(requested, cols),
        strictly_ascending(sorted),
        forall|n: Seq<char>| sorted.contains(n) <==> requested.contains(n),
    ensures
        column_names(selection(requested, cols)) == sorted,
{
    lemma_selection_names(requested, cols);
    lemma_ascending_unique(requested, sorted);
}

} // verus!
