//! The airway graph: fixes joined by airway segments, with the per-segment
//! direction and level restrictions, and the expansion of an airway between two of
//! its fixes.
//!
//! Positions are quantized coordinates (degrees times 10^6, rounded): two fixes of
//! the same name are the same fix when their quantized positions agree.
use vstd::prelude::*;

use crate::lookup::{
    first_index, lemma_first_index, lemma_first_index_extend, lemma_first_index_same,
};

verus! {

/// Whether an airway is a high or low level one.
#[derive(Copy, Clone, Debug, PartialEq, Eq, Structural)]
pub enum AirwayType {
    High,
    Low,
    Both,
    Unknown,
}

impl Default for AirwayType {
    fn default() -> (t: Self)
        ensures
            t == AirwayType::Unknown,
    {
        AirwayType::Unknown
    }
}

impl AirwayType {
    /// The letter written for the type in airway listings (empty when unknown).
    pub fn as_str(&self) -> (s: &'static str)
        ensures
            s@ == match *self {
                AirwayType::High => "H"@,
                AirwayType::Low => "L"@,
                AirwayType::Both => "B"@,
                AirwayType::Unknown => ""@,
            },
    {
        match self {
            AirwayType::High => "H",
            AirwayType::Low => "L",
            AirwayType::Both => "B",
            AirwayType::Unknown => "",
        }
    }
}

/// Index of a fix in an [`AirwayGraph`].
#[derive(Copy, Clone, Debug, PartialEq, Eq, Structural)]
pub struct FixId(pub usize);

/// Index of an airway in an [`AirwayGraph`].
#[derive(Copy, Clone, Debug, PartialEq, Eq, Structural)]
pub struct AirwayId(pub usize);

/// A segment of an airway leaving a fix.
#[derive(Copy, Clone, Debug, PartialEq, Eq, Structural)]
pub struct AirwayEdge {
    pub to: FixId,
    /// whether the segment may be flown in this direction
    pub valid_direction: bool,
    pub minimum_level: Option<u32>,
    pub maximum_level: Option<u32>,
    pub airway_type: AirwayType,
}

/// A fix of the graph: its position and, per airway, the segments leaving it.
#[derive(Debug)]
pub struct GraphFix {
    pub position: (i64, i64),
    pub edges: Vec<(AirwayId, Vec<AirwayEdge>)>,
}

/// A named fix at a quantized position.
#[derive(Debug)]
pub struct Fix {
    pub designator: String,
    pub coordinate: (i64, i64),
}

/// A fix reached along an airway: whether the segment leading to it may be flown in
/// that direction, and its minimum level.
#[derive(Debug)]
pub struct AirwayFix {
    pub fix: Fix,
    pub valid_direction: bool,
    pub minimum_level: Option<u32>,
}

/// Fixes and airways, with the segments between them.
#[derive(Debug)]
pub struct AirwayGraph {
    fixes: Vec<GraphFix>,
    fix_name_by_id: Vec<String>,
    airway_name_by_id: Vec<String>,
}

/// The segments of airway `a` in an edge table (empty when the airway has none).
pub open spec fn edge_list(table: Seq<(AirwayId, Vec<AirwayEdge>)>, a: int) -> Seq<AirwayEdge>
    decreases table.len(),
{
    if table.len() == 0 {
        seq![]
    } else if table.last().0.0 == a {
        table.last().1@
    } else {
        edge_list(table.drop_last(), a)
    }
}

/// Whether airway `a` has an entry in an edge table.
pub open spec fn has_entry(table: Seq<(AirwayId, Vec<AirwayEdge>)>, a: int) -> bool {
    exists|j: int| 0 <= j < table.len() && table[j].0.0 == a
}

/// Position of the first edge towards `to`.
pub open spec fn edge_to_index(es: Seq<AirwayEdge>, to: int) -> Option<int>
    decreases es.len(),
{
    if es.len() == 0 {
        None
    } else {
        match edge_to_index(es.drop_last(), to) {
            Some(j) => Some(j),
            None => if es.last().to.0 == to {
                Some(es.len() - 1)
            } else {
                None
            },
        }
    }
}

/// The smaller of two optional levels, where a missing one gives way to the other.
pub open spec fn min_level(a: Option<u32>, b: Option<u32>) -> Option<u32> {
    match (a, b) {
        (Some(x), Some(y)) => Some(if x <= y { x } else { y }),
        (x, None) => x,
        (None, y) => y,
    }
}

/// The larger of two optional levels, where a missing one gives way to the other.
pub open spec fn max_level(a: Option<u32>, b: Option<u32>) -> Option<u32> {
    match (a, b) {
        (Some(x), Some(y)) => Some(if x >= y { x } else { y }),
        (x, None) => x,
        (None, y) => y,
    }
}

/// An existing segment with another one towards the same fix folded in: valid if
/// either is, the lower minimum level, the higher maximum level.
pub open spec fn merge_edge(e: AirwayEdge, n: AirwayEdge) -> AirwayEdge {
    AirwayEdge {
        to: e.to,
        valid_direction: e.valid_direction || n.valid_direction,
        minimum_level: min_level(e.minimum_level, n.minimum_level),
        maximum_level: max_level(e.maximum_level, n.maximum_level),
        airway_type: e.airway_type,
    }
}

/// A segment list with a segment added: folded into the first segment towards the
/// same fix, else appended.
pub open spec fn add_edge(es: Seq<AirwayEdge>, n: AirwayEdge) -> Seq<AirwayEdge> {
    match edge_to_index(es, n.to.0 as int) {
        Some(j) => es.update(j, merge_edge(es[j], n)),
        None => es.push(n),
    }
}

/// Two graph positions name the same place when their quantized latitudes agree;
/// longitudes are not compared.
pub open spec fn same_place(p: (i64, i64), q: (i64, i64)) -> bool {
    p.1 == q.1
}

pub open spec fn string_views(v: Seq<String>) -> Seq<Seq<char>> {
    v.map_values(|s: String| s@)
}

impl AirwayGraph {
    /// Number of fixes.
    pub closed spec fn fix_count(&self) -> nat {
        self.fixes@.len()
    }

    /// Names of the fixes, by id.
    pub closed spec fn fix_names(&self) -> Seq<Seq<char>> {
        string_views(self.fix_name_by_id@)
    }

    /// Positions of the fixes, by id.
    pub closed spec fn fix_positions(&self) -> Seq<(i64, i64)> {
        self.fixes@.map_values(|f: GraphFix| f.position)
    }

    /// Names of the airways, by id.
    pub closed spec fn airway_names(&self) -> Seq<Seq<char>> {
        string_views(self.airway_name_by_id@)
    }

    /// The segments of airway `a` leaving fix `f`.
    pub closed spec fn edges(&self, f: int, a: int) -> Seq<AirwayEdge> {
        edge_list(self.fixes@[f].edges@, a)
    }

    /// Whether fix `f` lies on airway `a`.
    pub closed spec fn on_airway(&self, f: int, a: int) -> bool {
        has_entry(self.fixes@[f].edges@, a)
    }

    /// The graph is consistent: one name per fix, every segment leads to a fix of the
    /// graph and belongs to one of its airways, and each fix lists an airway once.
    pub closed spec fn wf(&self) -> bool {
        &&& self.fixes@.len() == self.fix_name_by_id@.len()
        &&& forall|f: int| 0 <= f < self.fixes@.len() ==> table_wf(
            #[trigger] self.fixes@[f].edges@,
            self.fixes@.len(),
            self.airway_name_by_id@.len(),
        )
    }

    /// An empty graph.
    pub fn new() -> (g: Self)
        ensures
            g.wf(),
            g.fix_count() == 0,
            g.airway_names() == Seq::<Seq<char>>::empty(),
    {
        let g = AirwayGraph {
            fixes: Vec::new(),
            fix_name_by_id: Vec::new(),
            airway_name_by_id: Vec::new(),
        };
        proof {
            assert(g.airway_names() =~= Seq::<Seq<char>>::empty());
        }
        g
    }
}

/// An edge table is consistent: its airways are distinct and below `na`, and its
/// segments lead to fixes below `nf`.
pub open spec fn table_wf(table: Seq<(AirwayId, Vec<AirwayEdge>)>, nf: nat, na: nat) -> bool {
    &&& forall|j: int| 0 <= j < table.len() ==> (#[trigger] table[j]).0.0 < na
    &&& forall|j: int, k: int|
        0 <= j < k < table.len() ==> (#[trigger] table[j]).0.0 != (#[trigger] table[k]).0.0
    &&& forall|j: int, k: int|
        0 <= j < table.len() && 0 <= k < table[j].1@.len() ==> (#[trigger] table[j].1@[k]).to.0
            < nf
}

proof fn lemma_edge_list_at(table: Seq<(AirwayId, Vec<AirwayEdge>)>, j: int, a: int)
    requires
        0 <= j < table.len(),
        table[j].0.0 == a,
        forall|x: int, y: int|
            0 <= x < y < table.len() ==> (#[trigger] table[x]).0.0 != (#[trigger] table[y]).0.0,
    ensures
        edge_list(table, a) == table[j].1@,
    decreases table.len(),
{
    if j < table.len() - 1 {
        assert(table[j].0.0 != table[table.len() - 1].0.0);
        lemma_edge_list_at(table.drop_last(), j, a);
    }
}

proof fn lemma_edge_list_absent(table: Seq<(AirwayId, Vec<AirwayEdge>)>, a: int)
    requires
        !has_entry(table, a),
    ensures
        edge_list(table, a) == Seq::<AirwayEdge>::empty(),
    decreases table.len(),
{
    if table.len() > 0 {
        assert(table.last().0.0 != a) by {
            assert(table[table.len() - 1].0.0 != a);
        }
        assert(!has_entry(table.drop_last(), a)) by {
            if has_entry(table.drop_last(), a) {
                let j = choose|j: int| 0 <= j < table.drop_last().len() && table.drop_last()[j].0.0 == a;
                assert(table[j].0.0 == a);
            }
        }
        lemma_edge_list_absent(table.drop_last(), a);
    }
}

/// What the lists of a table are, airway by airway.
proof fn lemma_edge_list_cases(table: Seq<(AirwayId, Vec<AirwayEdge>)>, a: int)
    requires
        forall|x: int, y: int|
            0 <= x < y < table.len() ==> (#[trigger] table[x]).0.0 != (#[trigger] table[y]).0.0,
    ensures
        has_entry(table, a) ==> exists|j: int|
            0 <= j < table.len() && table[j].0.0 == a && edge_list(table, a) == table[j].1@,
        !has_entry(table, a) ==> edge_list(table, a) == Seq::<AirwayEdge>::empty(),
{
    if has_entry(table, a) {
        let j = choose|j: int| 0 <= j < table.len() && table[j].0.0 == a;
        lemma_edge_list_at(table, j, a);
    } else {
        lemma_edge_list_absent(table, a);
    }
}

proof fn lemma_edge_to_index_bounds(es: Seq<AirwayEdge>, to: int)
    ensures
        edge_to_index(es, to) matches Some(j) ==> 0 <= j < es.len() && es[j].to.0 == to,
    decreases es.len(),
{
    if es.len() > 0 {
        lemma_edge_to_index_bounds(es.drop_last(), to);
    }
}

proof fn lemma_add_edge_targets(l: Seq<AirwayEdge>, e: AirwayEdge, nf: nat)
    requires
        forall|y: int| 0 <= y < l.len() ==> (#[trigger] l[y]).to.0 < nf,
        e.to.0 < nf,
    ensures
        forall|y: int|
            0 <= y < add_edge(l, e).len() ==> (#[trigger] add_edge(l, e)[y]).to.0 < nf,
{
    lemma_edge_to_index_bounds(l, e.to.0 as int);
    let r = add_edge(l, e);
    assert forall|y: int| 0 <= y < r.len() implies (#[trigger] r[y]).to.0 < nf by {
        match edge_to_index(l, e.to.0 as int) {
            Some(i) => {
                if y != i {
                    assert(r[y] == l[y]);
                }
            },
            None => {
                if y < l.len() {
                    assert(r[y] == l[y]);
                }
            },
        }
    }
}

/// Adds a segment to a segment list (see [`add_edge`]).
fn list_add_edge(list: &mut Vec<AirwayEdge>, e: AirwayEdge)
    ensures
        final(list)@ == add_edge(old(list)@, e),
{
    let mut j: usize = 0;
    while j < list.len()
        invariant
            j <= list@.len(),
            list@ == old(list)@,
            edge_to_index(list@.take(j as int), e.to.0 as int) is None,
        decreases list@.len() - j,
    {
        proof {
            assert(list@.take(j + 1).drop_last() =~= list@.take(j as int));
        }
        if list[j].to.0 == e.to.0 {
            proof {
                lemma_edge_to_index_prefix(list@, j as int, e.to.0 as int);
            }
            let old_e = list[j];
            let min = match (old_e.minimum_level, e.minimum_level) {
                (Some(x), Some(y)) => Some(if x <= y { x } else { y }),
                (x, None) => x,
                (None, y) => y,
            };
            let max = match (old_e.maximum_level, e.maximum_level) {
                (Some(x), Some(y)) => Some(if x >= y { x } else { y }),
                (x, None) => x,
                (None, y) => y,
            };
            let merged = AirwayEdge {
                to: old_e.to,
                valid_direction: old_e.valid_direction || e.valid_direction,
                minimum_level: min,
                maximum_level: max,
                airway_type: old_e.airway_type,
            };
            list[j] = merged;
            return;
        }
        j = j + 1;
    }
    proof {
        assert(list@.take(list@.len() as int) =~= list@);
    }
    list.push(e);
}

/// The first edge towards `to` in a list, found in a prefix, is the first in the
/// whole list.
proof fn lemma_edge_to_index_prefix(es: Seq<AirwayEdge>, j: int, to: int)
    requires
        0 <= j < es.len(),
        edge_to_index(es.take(j), to) is None,
        es[j].to.0 == to,
    ensures
        edge_to_index(es, to) == Some(j),
    decreases es.len(),
{
    if j < es.len() - 1 {
        assert(es.drop_last().take(j) =~= es.take(j));
        lemma_edge_to_index_prefix(es.drop_last(), j, to);
    } else {
        assert(es.drop_last() =~= es.take(j));
    }
}

/// Adds a segment of airway `airway` to an edge table.
fn table_add_edge(
    table: &mut Vec<(AirwayId, Vec<AirwayEdge>)>,
    airway: AirwayId,
    e: AirwayEdge,
    Ghost(nf): Ghost<nat>,
    Ghost(na): Ghost<nat>,
)
    requires
        table_wf(old(table)@, nf, na),
        airway.0 < na,
        e.to.0 < nf,
    ensures
        table_wf(final(table)@, nf, na),
        edge_list(final(table)@, airway.0 as int) == add_edge(
            edge_list(old(table)@, airway.0 as int),
            e,
        ),
        forall|b: int| b != airway.0 ==> edge_list(final(table)@, b) == edge_list(old(table)@, b),
        forall|b: int| has_entry(final(table)@, b) == (has_entry(old(table)@, b) || b == airway.0),
{
    let ghost old_t = table@;
    let mut j: usize = 0;
    while j < table.len()
        invariant
            j <= table@.len(),
            table@ == old_t,
            old_t == old(table)@,
            table_wf(old_t, nf, na),
            airway.0 < na,
            e.to.0 < nf,
            forall|k: int| 0 <= k < j ==> table@[k].0.0 != airway.0,
        decreases table@.len() - j,
    {
        if table[j].0.0 == airway.0 {
            proof {
                lemma_edge_list_at(old_t, j as int, airway.0 as int);
            }
            let entry = &mut table[j];
            list_add_edge(&mut entry.1, e);
            proof {
                let t = table@;
                assert(t[j as int].1@ == add_edge(old_t[j as int].1@, e));
                assert(t =~= old_t.update(j as int, t[j as int]));
                assert(t[j as int].0 == airway);
                assert forall|x: int| 0 <= x < t.len() implies #[trigger] t[x].0 == old_t[x].0 by {
                    if x != j {
                        assert(t[x] == old_t[x]);
                    }
                }
                assert forall|x: int, y: int|
                    0 <= x < y < t.len() implies (#[trigger] t[x]).0.0 != (#[trigger] t[y]).0.0 by {
                    assert(t[x].0 == old_t[x].0 && t[y].0 == old_t[y].0);
                    assert(old_t[x].0.0 != old_t[y].0.0);
                }
                assert forall|x: int| 0 <= x < t.len() implies (#[trigger] t[x]).0.0 < na by {
                    assert(t[x].0 == old_t[x].0);
                    assert(old_t[x].0.0 < na);
                }
                lemma_edge_list_at(t, j as int, airway.0 as int);
                assert forall|b: int| b != airway.0 implies edge_list(t, b) == edge_list(old_t, b) by {
                    lemma_edge_list_cases(old_t, b);
                    lemma_edge_list_cases(t, b);
                    if has_entry(old_t, b) {
                        let k = choose|k: int| 0 <= k < old_t.len() && old_t[k].0.0 == b && edge_list(old_t, b) == old_t[k].1@;
                        assert(t[k] == old_t[k]);
                        lemma_edge_list_at(t, k, b);
                    } else {
                        assert(!has_entry(t, b)) by {
                            if has_entry(t, b) {
                                let k = choose|k: int| 0 <= k < t.len() && t[k].0.0 == b;
                                assert(old_t[k].0.0 == b);
                            }
                        }
                    }
                }
                assert forall|b: int| has_entry(t, b) == (has_entry(old_t, b) || b == airway.0) by {
                    if has_entry(t, b) {
                        let k = choose|k: int| 0 <= k < t.len() && t[k].0.0 == b;
                        assert(old_t[k].0.0 == b);
                    }
                    if has_entry(old_t, b) {
                        let k = choose|k: int| 0 <= k < old_t.len() && old_t[k].0.0 == b;
                        assert(t[k].0.0 == b);
                    }
                    if b == airway.0 {
                        assert(t[j as int].0.0 == b);
                    }
                }
                assert forall|x: int, y: int|
                    0 <= x < t.len() && 0 <= y < t[x].1@.len() implies (#[trigger] t[x].1@[y]).to.0 < nf by {
                    if x != j {
                        assert(t[x] == old_t[x]);
                    } else {
                        lemma_add_edge_targets(old_t[x].1@, e, nf);
                    }
                }
            }
            return;
        }
        j = j + 1;
    }
    proof {
        assert(!has_entry(old_t, airway.0 as int));
        lemma_edge_list_absent(old_t, airway.0 as int);
    }
    let mut v: Vec<AirwayEdge> = Vec::new();
    v.push(e);
    table.push((airway, v));
    proof {
        let t = table@;
        assert(t.drop_last() =~= old_t);
        assert(add_edge(Seq::<AirwayEdge>::empty(), e) =~= seq![e]);
        assert forall|b: int| has_entry(t, b) == (has_entry(old_t, b) || b == airway.0) by {
            if has_entry(t, b) {
                let k = choose|k: int| 0 <= k < t.len() && t[k].0.0 == b;
                if k < old_t.len() {
                    assert(old_t[k].0.0 == b);
                }
            }
            if has_entry(old_t, b) {
                let k = choose|k: int| 0 <= k < old_t.len() && old_t[k].0.0 == b;
                assert(t[k].0.0 == b);
            }
            if b == airway.0 {
                assert(t[old_t.len() as int].0.0 == b);
            }
        }
        assert forall|x: int, y: int|
            0 <= x < y < t.len() implies (#[trigger] t[x]).0.0 != (#[trigger] t[y]).0.0 by {
            if y == old_t.len() {
                assert(t[x] == old_t[x]);
            } else {
                assert(t[x] == old_t[x] && t[y] == old_t[y]);
            }
        }
        assert forall|x: int| 0 <= x < t.len() implies (#[trigger] t[x]).0.0 < na by {
            if x < old_t.len() {
                assert(t[x] == old_t[x]);
            }
        }
        assert forall|x: int, y: int|
            0 <= x < t.len() && 0 <= y < t[x].1@.len() implies (#[trigger] t[x].1@[y]).to.0 < nf by {
            if x < old_t.len() {
                assert(t[x] == old_t[x]);
            }
        }
    }
}

/// A table consistent for `nf` fixes and `na` airways stays so for more of either.
proof fn lemma_table_wf_grow(t: Seq<(AirwayId, Vec<AirwayEdge>)>, nf: nat, na: nat, nf2: nat, na2: nat)
    requires
        table_wf(t, nf, na),
        nf <= nf2,
        na <= na2,
    ensures
        table_wf(t, nf2, na2),
{
}

impl AirwayGraph {
    /// Airways named `name`.
    pub open spec fn airway_named(&self, name: Seq<char>) -> spec_fn(int) -> bool {
        |j: int| self.airway_names()[j] == name
    }

    /// Fixes named `name` at the place `pos`.
    pub open spec fn fix_at(&self, name: Seq<char>, pos: (i64, i64)) -> spec_fn(int) -> bool {
        |j: int| self.fix_names()[j] == name && same_place(self.fix_positions()[j], pos)
    }

    /// Fixes named `name` lying on airway `a`.
    pub open spec fn fix_on(&self, name: Seq<char>, a: int) -> spec_fn(int) -> bool {
        |j: int| self.fix_names()[j] == name && self.on_airway(j, a)
    }

    /// Id of the first airway named `name`.
    pub open spec fn airway_lookup(&self, name: Seq<char>) -> Option<int> {
        first_index(self.airway_names().len() as int, self.airway_named(name))
    }

    /// Id of the first fix named `name` at the place `pos`.
    pub open spec fn fix_lookup(&self, name: Seq<char>, pos: (i64, i64)) -> Option<int> {
        first_index(self.fix_count() as int, self.fix_at(name, pos))
    }

    /// Id of the first fix named `name` that lies on airway `a`.
    pub open spec fn fix_on_airway_lookup(&self, name: Seq<char>, a: int) -> Option<int> {
        first_index(self.fix_count() as int, self.fix_on(name, a))
    }

    /// The fixes, their names and their segments are those of `other`.
    pub open spec fn same_fixes(&self, other: &Self) -> bool {
        &&& self.fix_count() == other.fix_count()
        &&& self.fix_names() == other.fix_names()
        &&& self.fix_positions() == other.fix_positions()
        &&& forall|f: int, a: int| #[trigger] self.edges(f, a) == other.edges(f, a)
        &&& forall|f: int, a: int| #[trigger] self.on_airway(f, a) == other.on_airway(f, a)
    }

    /// Looks up an airway by name.
    fn find_airway(&self, name: &str) -> (r: Option<AirwayId>)
        ensures
            r matches Some(id) ==> self.airway_lookup(name@) == Some(id.0 as int),
            r is None ==> self.airway_lookup(name@) is None,
    {
        let ghost p = self.airway_named(name@);
        let mut j: usize = 0;
        while j < self.airway_name_by_id.len()
            invariant
                j <= self.airway_name_by_id@.len(),
                p == self.airway_named(name@),
                first_index(j as int, p) is None,
            decreases self.airway_name_by_id@.len() - j,
        {
            if crate::text::str_eq(self.airway_name_by_id[j].as_str(), name) {
                assert(p(j as int));
                proof {
                    lemma_first_index_extend(j + 1, self.airway_name_by_id@.len() as int, p);
                }
                return Some(AirwayId(j));
            }
            j = j + 1;
        }
        None
    }

    /// Looks up a fix by name and place.
    fn find_fix(&self, name: &str, pos: (i64, i64)) -> (r: Option<FixId>)
        requires
            self.wf(),
        ensures
            r matches Some(id) ==> self.fix_lookup(name@, pos) == Some(id.0 as int),
            r is None ==> self.fix_lookup(name@, pos) is None,
    {
        let ghost p = self.fix_at(name@, pos);
        let mut j: usize = 0;
        while j < self.fixes.len()
            invariant
                self.wf(),
                j <= self.fixes@.len(),
                p == self.fix_at(name@, pos),
                first_index(j as int, p) is None,
            decreases self.fixes@.len() - j,
        {
            if self.fixes[j].position.1 == pos.1 && crate::text::str_eq(
                self.fix_name_by_id[j].as_str(),
                name,
            ) {
                assert(p(j as int));
                proof {
                    lemma_first_index_extend(j + 1, self.fixes@.len() as int, p);
                }
                return Some(FixId(j));
            }
            assert(!p(j as int));
            j = j + 1;
        }
        None
    }

    /// Whether fix `f` has an entry for airway `a`, and its segments.
    fn edges_of(&self, f: FixId, a: AirwayId) -> (r: Option<&Vec<AirwayEdge>>)
        requires
            self.wf(),
            f.0 < self.fix_count(),
        ensures
            r is Some <==> self.on_airway(f.0 as int, a.0 as int),
            r matches Some(v) ==> v@ == self.edges(f.0 as int, a.0 as int),
            r is None ==> self.edges(f.0 as int, a.0 as int) == Seq::<AirwayEdge>::empty(),
    {
        let table = &self.fixes[f.0].edges;
        let ghost t = table@;
        proof {
            assert(table_wf(t, self.fixes@.len(), self.airway_name_by_id@.len()));
        }
        let mut j: usize = 0;
        while j < table.len()
            invariant
                j <= t.len(),
                t == table@,
                t == self.fixes@[f.0 as int].edges@,
                table_wf(t, self.fixes@.len(), self.airway_name_by_id@.len()),
                forall|k: int| 0 <= k < j ==> t[k].0.0 != a.0,
            decreases t.len() - j,
        {
            if table[j].0.0 == a.0 {
                proof {
                    lemma_edge_list_at(t, j as int, a.0 as int);
                    assert(has_entry(t, a.0 as int));
                }
                return Some(&table[j].1);
            }
            j = j + 1;
        }
        proof {
            lemma_edge_list_absent(t, a.0 as int);
        }
        None
    }

    /// Looks up the first fix of a name that lies on an airway.
    fn find_fix_on_airway(&self, name: &str, a: AirwayId) -> (r: Option<FixId>)
        requires
            self.wf(),
        ensures
            r matches Some(id) ==> self.fix_on_airway_lookup(name@, a.0 as int) == Some(
                id.0 as int,
            ),
            r is None ==> self.fix_on_airway_lookup(name@, a.0 as int) is None,
    {
        let ghost p = self.fix_on(name@, a.0 as int);
        let mut j: usize = 0;
        while j < self.fixes.len()
            invariant
                self.wf(),
                j <= self.fixes@.len(),
                p == self.fix_on(name@, a.0 as int),
                first_index(j as int, p) is None,
            decreases self.fixes@.len() - j,
        {
            if crate::text::str_eq(self.fix_name_by_id[j].as_str(), name) {
                if self.edges_of(FixId(j), a).is_some() {
                    assert(p(j as int));
                    proof {
                        lemma_first_index_extend(j + 1, self.fixes@.len() as int, p);
                    }
                    return Some(FixId(j));
                }
            }
            assert(!p(j as int));
            j = j + 1;
        }
        None
    }
}

impl AirwayGraph {
    /// The id of the airway named `name`, added at the end when there is none.
    fn get_or_insert_airway_id(&mut self, name: &str) -> (r: AirwayId)
        requires
            old(self).wf(),
        ensures
            final(self).wf(),
            final(self).same_fixes(old(self)),
            match old(self).airway_lookup(name@) {
                Some(j) => r.0 == j && final(self).airway_names() == old(self).airway_names(),
                None => r.0 == old(self).airway_names().len() && final(self).airway_names()
                    == old(self).airway_names().push(name@),
            },
            final(self).airway_lookup(name@) == Some(r.0 as int),
    {
        match self.find_airway(name) {
            Some(id) => {
                proof {
                    lemma_first_index(
                        self.airway_names().len() as int,
                        self.airway_named(name@),
                    );
                }
                id
            },
            None => {
                let ghost g0 = *self;
                let id = AirwayId(self.airway_name_by_id.len());
                self.airway_name_by_id.push(name.to_string());
                proof {
                    assert(self.airway_names() =~= g0.airway_names().push(name@));
                    assert(self.fix_positions() =~= g0.fix_positions());
                    assert forall|f: int|
                        0 <= f < self.fixes@.len() implies table_wf(
                        #[trigger] self.fixes@[f].edges@,
                        self.fixes@.len(),
                        self.airway_name_by_id@.len(),
                    ) by {
                        assert(table_wf(
                            g0.fixes@[f].edges@,
                            g0.fixes@.len(),
                            g0.airway_name_by_id@.len(),
                        ));
                        lemma_table_wf_grow(
                            g0.fixes@[f].edges@,
                            g0.fixes@.len(),
                            g0.airway_name_by_id@.len(),
                            self.fixes@.len(),
                            self.airway_name_by_id@.len(),
                        );
                    }
                    let p0 = g0.airway_named(name@);
                    let p1 = self.airway_named(name@);
                    let n0 = g0.airway_names().len() as int;
                    assert forall|k: int| 0 <= k < n0 implies #[trigger] p0(k) == p1(k) by {}
                    lemma_first_index(n0, p0);
                    lemma_first_index_same(n0, p0, p1);
                    assert(p1(n0));
                }
                id
            },
        }
    }
}


impl AirwayGraph {
    /// The id of the fix named `name` at the place `pos`; a fix without segments is
    /// added at the end when there is none.
    fn get_or_insert_fix_id(&mut self, pos: (i64, i64), name: &str) -> (r: FixId)
        requires
            old(self).wf(),
        ensures
            final(self).wf(),
            final(self).airway_names() == old(self).airway_names(),
            match old(self).fix_lookup(name@, pos) {
                Some(j) => r.0 == j && final(self).same_fixes(old(self)),
                None => {
                    &&& r.0 == old(self).fix_count()
                    &&& final(self).fix_count() == old(self).fix_count() + 1
                    &&& final(self).fix_names() == old(self).fix_names().push(name@)
                    &&& final(self).fix_positions() == old(self).fix_positions().push(pos)
                    &&& forall|f: int, a: int|
                        0 <= f < old(self).fix_count() ==> #[trigger] final(self).edges(f, a)
                            == old(self).edges(f, a) && final(self).on_airway(f, a)
                            == old(self).on_airway(f, a)
                    &&& forall|a: int|
                        #[trigger] final(self).edges(r.0 as int, a) == Seq::<AirwayEdge>::empty()
                            && !final(self).on_airway(r.0 as int, a)
                },
            },
            final(self).fix_lookup(name@, pos) == Some(r.0 as int),
    {
        match self.find_fix(name, pos) {
            Some(id) => {
                proof {
                    lemma_first_index(self.fix_count() as int, self.fix_at(name@, pos));
                }
                id
            },
            None => {
                let ghost g0 = *self;
                let id = FixId(self.fixes.len());
                self.fixes.push(GraphFix { position: pos, edges: Vec::new() });
                self.fix_name_by_id.push(name.to_string());
                proof {
                    let n0 = g0.fixes@.len() as int;
                    assert(self.fix_names() =~= g0.fix_names().push(name@));
                    assert(self.fix_positions() =~= g0.fix_positions().push(pos));
                    assert(self.airway_names() =~= g0.airway_names());
                    assert forall|f: int|
                        0 <= f < self.fixes@.len() implies table_wf(
                        #[trigger] self.fixes@[f].edges@,
                        self.fixes@.len(),
                        self.airway_name_by_id@.len(),
                    ) by {
                        if f < n0 {
                            assert(self.fixes@[f] == g0.fixes@[f]);
                            assert(table_wf(
                                g0.fixes@[f].edges@,
                                g0.fixes@.len(),
                                g0.airway_name_by_id@.len(),
                            ));
                            lemma_table_wf_grow(
                                g0.fixes@[f].edges@,
                                g0.fixes@.len(),
                                g0.airway_name_by_id@.len(),
                                self.fixes@.len(),
                                self.airway_name_by_id@.len(),
                            );
                        }
                    }
                    assert forall|f: int, a: int|
                        0 <= f < n0 implies #[trigger] self.edges(f, a) == g0.edges(f, a)
                        && self.on_airway(f, a) == g0.on_airway(f, a) by {
                        assert(self.fixes@[f] == g0.fixes@[f]);
                    }
                    assert forall|a: int|
                        #[trigger] self.edges(n0, a) == Seq::<AirwayEdge>::empty() && !self.on_airway(
                            n0,
                            a,
                        ) by {
                        assert(self.fixes@[n0].edges@ =~= Seq::<(AirwayId, Vec<AirwayEdge>)>::empty());
                    }
                    let p0 = g0.fix_at(name@, pos);
                    let p1 = self.fix_at(name@, pos);
                    assert forall|k: int| 0 <= k < n0 implies #[trigger] p0(k) == p1(k) by {}
                    lemma_first_index(n0, p0);
                    lemma_first_index_same(n0, p0, p1);
                    assert(p1(n0));
                }
                id
            },
        }
    }

    /// Adds a segment of `airway` leaving fix `from` (see [`add_edge`]).
    fn insert_or_update_edge(&mut self, from: FixId, airway: AirwayId, e: AirwayEdge)
        requires
            old(self).wf(),
            from.0 < old(self).fix_count(),
            airway.0 < old(self).airway_names().len(),
            e.to.0 < old(self).fix_count(),
        ensures
            final(self).wf(),
            final(self).fix_count() == old(self).fix_count(),
            final(self).fix_names() == old(self).fix_names(),
            final(self).fix_positions() == old(self).fix_positions(),
            final(self).airway_names() == old(self).airway_names(),
            final(self).edges(from.0 as int, airway.0 as int) == add_edge(
                old(self).edges(from.0 as int, airway.0 as int),
                e,
            ),
            forall|f: int, a: int|
                0 <= f < old(self).fix_count() && (f != from.0 || a != airway.0)
                    ==> #[trigger] final(self).edges(f, a) == old(self).edges(f, a),
            forall|f: int, a: int|
                0 <= f < old(self).fix_count() ==> #[trigger] final(self).on_airway(f, a)
                    == (old(self).on_airway(f, a) || (f == from.0 && a == airway.0)),
    {
        let ghost g0 = *self;
        let ghost nf = self.fixes@.len();
        let ghost na = self.airway_name_by_id@.len();
        proof {
            assert(table_wf(self.fixes@[from.0 as int].edges@, nf, na));
        }
        let fix = &mut self.fixes[from.0];
        table_add_edge(&mut fix.edges, airway, e, Ghost(nf), Ghost(na));
        proof {
            let i = from.0 as int;
            assert(self.fixes@ =~= g0.fixes@.update(i, self.fixes@[i]));
            assert(self.fixes@[i].position == g0.fixes@[i].position);
            assert(self.fix_positions() =~= g0.fix_positions());
            assert forall|f: int|
                0 <= f < self.fixes@.len() implies table_wf(
                #[trigger] self.fixes@[f].edges@,
                self.fixes@.len(),
                self.airway_name_by_id@.len(),
            ) by {
                if f != i {
                    assert(self.fixes@[f] == g0.fixes@[f]);
                    assert(table_wf(g0.fixes@[f].edges@, nf, na));
                }
            }
            assert forall|f: int, a: int|
                0 <= f < nf && (f != from.0 || a != airway.0) implies #[trigger] self.edges(f, a)
                == g0.edges(f, a) by {
                if f != i {
                    assert(self.fixes@[f] == g0.fixes@[f]);
                }
            }
            assert forall|f: int, a: int|
                0 <= f < nf implies #[trigger] self.on_airway(f, a) == (g0.on_airway(f, a) || (f
                == from.0 && a == airway.0)) by {
                if f != i {
                    assert(self.fixes@[f] == g0.fixes@[f]);
                }
            }
        }
    }
}

/// The segments of airway `a` at fix `f` of `g`, empty for a fix that `g` lacks.
pub open spec fn edges_or_empty(g: AirwayGraph, f: int, a: int) -> Seq<AirwayEdge> {
    if 0 <= f < g.fix_count() {
        g.edges(f, a)
    } else {
        Seq::empty()
    }
}

/// `g1` holds the fixes and airways of `g0`, under the same ids, and perhaps more.
pub open spec fn extends(g1: AirwayGraph, g0: AirwayGraph) -> bool {
    &&& g0.fix_count() <= g1.fix_count()
    &&& g1.fix_names().take(g0.fix_count() as int) == g0.fix_names()
    &&& g1.fix_positions().take(g0.fix_count() as int) == g0.fix_positions()
    &&& g0.airway_names().len() <= g1.airway_names().len()
    &&& g1.airway_names().take(g0.airway_names().len() as int) == g0.airway_names()
}

/// A fix found in a graph is found, under the same id, in any graph that extends it.
proof fn lemma_fix_lookup_stable(g0: AirwayGraph, g1: AirwayGraph, name: Seq<char>, pos: (i64, i64))
    requires
        extends(g1, g0),
        g0.wf(),
        g1.wf(),
        g0.fix_lookup(name, pos) is Some,
    ensures
        g1.fix_lookup(name, pos) == g0.fix_lookup(name, pos),
{
    let n0 = g0.fix_count() as int;
    let p0 = g0.fix_at(name, pos);
    let p1 = g1.fix_at(name, pos);
    assert forall|k: int| 0 <= k < n0 implies #[trigger] p0(k) == p1(k) by {
        assert(g1.fix_names().take(n0)[k] == g1.fix_names()[k]);
        assert(g1.fix_positions().take(n0)[k] == g1.fix_positions()[k]);
    }
    lemma_first_index_same(n0, p0, p1);
    lemma_first_index_extend(n0, g1.fix_count() as int, p1);
}

/// An airway found in a graph is found, under the same id, in any graph that extends
/// it.
proof fn lemma_airway_lookup_stable(g0: AirwayGraph, g1: AirwayGraph, name: Seq<char>)
    requires
        extends(g1, g0),
        g0.airway_lookup(name) is Some,
    ensures
        g1.airway_lookup(name) == g0.airway_lookup(name),
{
    let n0 = g0.airway_names().len() as int;
    let p0 = g0.airway_named(name);
    let p1 = g1.airway_named(name);
    assert forall|k: int| 0 <= k < n0 implies #[trigger] p0(k) == p1(k) by {
        assert(g1.airway_names().take(n0)[k] == g1.airway_names()[k]);
    }
    lemma_first_index_same(n0, p0, p1);
    lemma_first_index_extend(n0, g1.airway_names().len() as int, p1);
}

/// The segment of `airway` from fix `f` to fix `t` is recorded in both directions in
/// `g1`: `fwd` leaving `f`, `back` leaving `t`; every other segment list of `g0` is
/// kept.
pub open spec fn segment_recorded(
    g0: AirwayGraph,
    g1: AirwayGraph,
    a: int,
    f: int,
    t: int,
    fwd: AirwayEdge,
    back: AirwayEdge,
) -> bool {
    &&& f != t ==> g1.edges(f, a) == add_edge(edges_or_empty(g0, f, a), fwd) && g1.edges(t, a)
        == add_edge(edges_or_empty(g0, t, a), back)
    &&& f == t ==> g1.edges(f, a) == add_edge(add_edge(edges_or_empty(g0, f, a), fwd), back)
    &&& forall|g: int, b: int|
        0 <= g < g1.fix_count() && !((g == f || g == t) && b == a) ==> #[trigger] g1.edges(g, b)
            == edges_or_empty(g0, g, b)
}

/// The record of a segment of airway `airway` from the fix `from` at `pos` to the fix
/// of `segment`, with the segment's direction flag and minimum level, no maximum
/// level, and type `ty`.
pub open spec fn segment_record(
    airway: Seq<char>,
    from: Seq<char>,
    pos: (i64, i64),
    segment: AirwayFix,
    ty: AirwayType,
) -> SegmentRecord {
    SegmentRecord {
        airway,
        from_fix: from,
        from_position: pos,
        to_fix: segment.fix.designator@,
        to_position: segment.fix.coordinate,
        valid_direction: segment.valid_direction,
        minimum_level: segment.minimum_level,
        maximum_level: None,
        airway_type: ty,
    }
}

impl AirwayGraph {
    /// Records a segment of airway `airway_name` from the fix `from_name` at
    /// `from_fix` to the fix of `segment`, adding the airway and the fixes where they
    /// are new. The segment is recorded both ways: leaving the first fix with the
    /// segment's direction flag and minimum level, and leaving the second fix as not
    /// valid in that direction.
    pub fn insert_or_update_segment(
        &mut self,
        airway_name: &str,
        from_name: &str,
        from_fix: (i64, i64),
        segment: &AirwayFix,
        airway_type: AirwayType,
    )
        requires
            old(self).wf(),
        ensures
            final(self).wf(),
            extends(*final(self), *old(self)),
            ({
                let g0 = *old(self);
                let g1 = *final(self);
                &&& g1.airway_lookup(airway_name@) is Some
                &&& g1.fix_lookup(from_name@, from_fix) is Some
                &&& g1.fix_lookup(segment.fix.designator@, segment.fix.coordinate) is Some
                &&& {
                    let a = g1.airway_lookup(airway_name@).unwrap();
                    let f = g1.fix_lookup(from_name@, from_fix).unwrap();
                    let t = g1.fix_lookup(segment.fix.designator@, segment.fix.coordinate).unwrap();
                    let fwd = AirwayEdge {
                        to: FixId(t as usize),
                        valid_direction: segment.valid_direction,
                        minimum_level: segment.minimum_level,
                        maximum_level: None,
                        airway_type,
                    };
                    let back = AirwayEdge {
                        to: FixId(f as usize),
                        valid_direction: false,
                        minimum_level: segment.minimum_level,
                        maximum_level: None,
                        airway_type,
                    };
                    segment_recorded(g0, g1, a, f, t, fwd, back)
                }
            }),
            grows(*final(self), *old(self)),
            step_recorded(*old(self), *final(self), segment_record(airway_name@, from_name@, from_fix, *segment, airway_type)),
            link_recorded(
                *final(self),
                airway_name@,
                from_name@,
                from_fix,
                segment.fix.designator@,
                segment.fix.coordinate,
            ),
    {
        let ghost g0 = *self;
        let self_id = self.get_or_insert_fix_id(from_fix, from_name);
        let ghost g1 = *self;
        let to_id = self.get_or_insert_fix_id(segment.fix.coordinate, segment.fix.designator.as_str());
        let ghost g2 = *self;
        let awy_id = self.get_or_insert_airway_id(airway_name);
        let ghost g3 = *self;
        proof {
            assert(g1.fix_names().take(g0.fix_count() as int) =~= g0.fix_names());
            assert(g1.fix_positions().take(g0.fix_count() as int) =~= g0.fix_positions());
            assert(g1.airway_names().take(g0.airway_names().len() as int) =~= g0.airway_names());
            assert(extends(g1, g0));
            assert(g2.fix_names().take(g1.fix_count() as int) =~= g1.fix_names());
            assert(g2.fix_positions().take(g1.fix_count() as int) =~= g1.fix_positions());
            assert(g2.airway_names().take(g1.airway_names().len() as int) =~= g1.airway_names());
            assert(extends(g2, g1));
            lemma_fix_lookup_stable(g1, g2, from_name@, from_fix);
            assert(g3.fix_names().take(g2.fix_count() as int) =~= g2.fix_names());
            assert(g3.fix_positions().take(g2.fix_count() as int) =~= g2.fix_positions());
            assert(g3.airway_names().take(g2.airway_names().len() as int) =~= g2.airway_names());
            assert(extends(g3, g2));
            assert(g3.fix_at(from_name@, from_fix) =~= g2.fix_at(from_name@, from_fix));
            assert(g3.fix_at(segment.fix.designator@, segment.fix.coordinate) =~= g2.fix_at(
                segment.fix.designator@,
                segment.fix.coordinate,
            ));
            lemma_first_index(g3.fix_count() as int, g3.fix_at(from_name@, from_fix));
            lemma_first_index(
                g3.fix_count() as int,
                g3.fix_at(segment.fix.designator@, segment.fix.coordinate),
            );
            lemma_first_index(g3.airway_names().len() as int, g3.airway_named(airway_name@));
        }
        let to_edge = AirwayEdge {
            to: to_id,
            valid_direction: segment.valid_direction,
            minimum_level: segment.minimum_level,
            maximum_level: None,
            airway_type,
        };
        self.insert_or_update_edge(self_id, awy_id, to_edge);
        let ghost g4 = *self;
        let from_edge = AirwayEdge {
            to: self_id,
            valid_direction: false,
            minimum_level: segment.minimum_level,
            maximum_level: None,
            airway_type,
        };
        self.insert_or_update_edge(to_id, awy_id, from_edge);
        proof {
            let g5 = *self;
            assert(g5.fix_at(from_name@, from_fix) =~= g3.fix_at(from_name@, from_fix));
            assert(g5.fix_at(segment.fix.designator@, segment.fix.coordinate) =~= g3.fix_at(
                segment.fix.designator@,
                segment.fix.coordinate,
            ));
            assert(g5.airway_named(airway_name@) =~= g3.airway_named(airway_name@));
            assert(g5.fix_names().take(g0.fix_count() as int) =~= g0.fix_names());
            assert(g5.fix_positions().take(g0.fix_count() as int) =~= g0.fix_positions());
            assert(g5.airway_names().take(g0.airway_names().len() as int) =~= g0.airway_names());
            let f = self_id.0 as int;
            let t = to_id.0 as int;
            let a = awy_id.0 as int;
            // what each step left in the segment lists
            assert forall|g: int, b: int| 0 <= g < g3.fix_count() implies #[trigger] g3.edges(g, b)
                == edges_or_empty(g0, g, b) by {
                if g < g0.fix_count() {
                    assert(g1.edges(g, b) == g0.edges(g, b));
                    assert(g2.edges(g, b) == g1.edges(g, b));
                } else if g < g1.fix_count() {
                    assert(g2.edges(g, b) == g1.edges(g, b));
                }
            }
            assert forall|g: int, b: int|
                0 <= g < g5.fix_count() && !((g == f || g == t) && b == a) implies #[trigger] g5.edges(g, b)
                == edges_or_empty(g0, g, b) by {
                assert(g4.edges(g, b) == g3.edges(g, b));
            }
            let fwd = AirwayEdge {
                to: to_id,
                valid_direction: segment.valid_direction,
                minimum_level: segment.minimum_level,
                maximum_level: None,
                airway_type,
            };
            let back = AirwayEdge {
                to: self_id,
                valid_direction: false,
                minimum_level: segment.minimum_level,
                maximum_level: None,
                airway_type,
            };
            lemma_segment_recorded_grows(g0, g5, a, f, t, fwd, back);
        }
    }
}

/// A segment recorded both ways, with all else kept, leaves a graph that grows and
/// has the segment both ways.
proof fn lemma_segment_recorded_grows(
    g0: AirwayGraph,
    g1: AirwayGraph,
    a: int,
    f: int,
    t: int,
    fwd: AirwayEdge,
    back: AirwayEdge,
)
    requires
        g0.wf(),
        g1.wf(),
        extends(g1, g0),
        0 <= f < g1.fix_count(),
        0 <= t < g1.fix_count(),
        fwd.to.0 == t,
        back.to.0 == f,
        segment_recorded(g0, g1, a, f, t, fwd, back),
    ensures
        grows(g1, g0),
        has_segment(g1, a, f, t),
        has_segment(g1, a, t, f),
{
    if f != t {
        lemma_add_edge_keeps(edges_or_empty(g0, f, a), fwd, t);
        lemma_add_edge_keeps(edges_or_empty(g0, t, a), back, f);
    } else {
        let x = add_edge(edges_or_empty(g0, f, a), fwd);
        lemma_add_edge_keeps(edges_or_empty(g0, f, a), fwd, t);
        lemma_add_edge_keeps(x, back, t);
    }
    assert forall|b: int, x: int, y: int|
        0 <= x < g0.fix_count() && #[trigger] has_segment(g0, b, x, y) implies has_segment(g1, b, x, y) by {
        if !((x == f || x == t) && b == a) {
            assert(g1.edges(x, b) == edges_or_empty(g0, x, b));
        } else if f != t && x == f {
            lemma_add_edge_keeps(edges_or_empty(g0, f, a), fwd, y);
        } else if f != t {
            lemma_add_edge_keeps(edges_or_empty(g0, t, a), back, y);
        } else {
            let z = add_edge(edges_or_empty(g0, f, a), fwd);
            lemma_add_edge_keeps(edges_or_empty(g0, f, a), fwd, y);
            lemma_add_edge_keeps(z, back, y);
        }
    }
}

/// The segment of airway `airway` between the fix `n1` at `p1` and the fix `n2` at
/// `p2` is recorded both ways.
pub open spec fn link_recorded(
    g: AirwayGraph,
    airway: Seq<char>,
    n1: Seq<char>,
    p1: (i64, i64),
    n2: Seq<char>,
    p2: (i64, i64),
) -> bool {
    match (g.airway_lookup(airway), g.fix_lookup(n1, p1), g.fix_lookup(n2, p2)) {
        (Some(a), Some(f), Some(t)) => has_segment(g, a, f, t) && has_segment(g, a, t, f),
        _ => false,
    }
}

/// A recorded link stays recorded as the graph grows.
pub proof fn lemma_link_recorded_stable(
    g0: AirwayGraph,
    g1: AirwayGraph,
    airway: Seq<char>,
    n1: Seq<char>,
    p1: (i64, i64),
    n2: Seq<char>,
    p2: (i64, i64),
)
    requires
        g0.wf(),
        g1.wf(),
        grows(g1, g0),
        link_recorded(g0, airway, n1, p1, n2, p2),
    ensures
        link_recorded(g1, airway, n1, p1, n2, p2),
{
    lemma_airway_lookup_stable(g0, g1, airway);
    lemma_fix_lookup_stable(g0, g1, n1, p1);
    lemma_fix_lookup_stable(g0, g1, n2, p2);
    lemma_first_index(g0.fix_count() as int, g0.fix_at(n1, p1));
    lemma_first_index(g0.fix_count() as int, g0.fix_at(n2, p2));
    let a = g0.airway_lookup(airway).unwrap();
    let f = g0.fix_lookup(n1, p1).unwrap();
    let t = g0.fix_lookup(n2, p2).unwrap();
    assert(has_segment(g0, a, f, t));
    assert(has_segment(g0, a, t, f));
}

/// A segment to record: the airway, the fix it leaves and the fix it leads to (each
/// by name and position), and what holds of it in that direction.
pub struct SegmentRecord {
    pub airway: Seq<char>,
    pub from_fix: Seq<char>,
    pub from_position: (i64, i64),
    pub to_fix: Seq<char>,
    pub to_position: (i64, i64),
    pub valid_direction: bool,
    pub minimum_level: Option<u32>,
    pub maximum_level: Option<u32>,
    pub airway_type: AirwayType,
}

/// The edge that a record leaves at its first fix, towards fix `t`.
pub open spec fn forward_edge(r: SegmentRecord, t: int) -> AirwayEdge {
    AirwayEdge {
        to: FixId(t as usize),
        valid_direction: r.valid_direction,
        minimum_level: r.minimum_level,
        maximum_level: r.maximum_level,
        airway_type: r.airway_type,
    }
}

/// The edge that a record leaves at its second fix, back towards fix `f`: not
/// valid in that direction, with the same levels and type.
pub open spec fn backward_edge(r: SegmentRecord, f: int) -> AirwayEdge {
    AirwayEdge {
        to: FixId(f as usize),
        valid_direction: false,
        minimum_level: r.minimum_level,
        maximum_level: r.maximum_level,
        airway_type: r.airway_type,
    }
}

/// The ids of a record's airway, first fix and second fix in `g`, where `g` has all
/// three.
pub open spec fn record_ids(g: AirwayGraph, r: SegmentRecord) -> Option<(int, int, int)> {
    match (
        g.airway_lookup(r.airway),
        g.fix_lookup(r.from_fix, r.from_position),
        g.fix_lookup(r.to_fix, r.to_position),
    ) {
        (Some(a), Some(f), Some(t)) => Some((a, f, t)),
        _ => None,
    }
}

/// The segments of airway `a` leaving fix `f` that records give, in `g`'s ids: each
/// record adds its forward edge at its first fix, then its backward edge at its
/// second fix (see [`add_edge`]).
pub open spec fn record_edges(g: AirwayGraph, recs: Seq<SegmentRecord>, f: int, a: int) -> Seq<
    AirwayEdge,
>
    decreases recs.len(),
{
    if recs.len() == 0 {
        seq![]
    } else {
        let prev = record_edges(g, recs.drop_last(), f, a);
        let r = recs.last();
        match record_ids(g, r) {
            Some((ra, rf, rt)) => {
                let x = if rf == f && ra == a {
                    add_edge(prev, forward_edge(r, rt))
                } else {
                    prev
                };
                if rt == f && ra == a {
                    add_edge(x, backward_edge(r, rf))
                } else {
                    x
                }
            },
            None => prev,
        }
    }
}

/// Whether `g` is the graph of the records: it has the airway and both fixes of
/// each, and every segment list is exactly what the records give.
pub open spec fn built_from(g: AirwayGraph, recs: Seq<SegmentRecord>) -> bool {
    &&& g.wf()
    &&& forall|i: int| 0 <= i < recs.len() ==> record_ids(g, #[trigger] recs[i]) is Some
    &&& forall|f: int, a: int|
        0 <= f < g.fix_count() ==> #[trigger] g.edges(f, a) == record_edges(g, recs, f, a)
}

/// Whether `g1` is `g0` with record `r` added (see [`segment_recorded`]).
pub open spec fn step_recorded(g0: AirwayGraph, g1: AirwayGraph, r: SegmentRecord) -> bool {
    match record_ids(g1, r) {
        Some((a, f, t)) => segment_recorded(g0, g1, a, f, t, forward_edge(r, t), backward_edge(r, f)),
        None => false,
    }
}

/// The graph with no records is the empty graph.
pub proof fn lemma_built_from_empty(g: AirwayGraph)
    requires
        g.wf(),
        g.fix_count() == 0,
    ensures
        built_from(g, seq![]),
{
}

/// Records whose ids a graph has give the same segments in any graph that extends it.
proof fn lemma_record_edges_stable(
    g0: AirwayGraph,
    g1: AirwayGraph,
    recs: Seq<SegmentRecord>,
    f: int,
    a: int,
)
    requires
        g0.wf(),
        g1.wf(),
        extends(g1, g0),
        forall|i: int| 0 <= i < recs.len() ==> record_ids(g0, #[trigger] recs[i]) is Some,
    ensures
        record_edges(g1, recs, f, a) == record_edges(g0, recs, f, a),
        forall|i: int| 0 <= i < recs.len() ==> record_ids(g1, #[trigger] recs[i]) == record_ids(g0, recs[i]),
    decreases recs.len(),
{
    if recs.len() > 0 {
        let d = recs.drop_last();
        assert forall|i: int| 0 <= i < d.len() implies record_ids(g0, #[trigger] d[i]) is Some by {
            assert(d[i] == recs[i]);
        }
        lemma_record_edges_stable(g0, g1, d, f, a);
        assert forall|i: int| 0 <= i < recs.len() implies record_ids(g1, #[trigger] recs[i]) == record_ids(
            g0,
            recs[i],
        ) by {
            let r = recs[i];
            assert(record_ids(g0, r) is Some);
            lemma_airway_lookup_stable(g0, g1, r.airway);
            lemma_fix_lookup_stable(g0, g1, r.from_fix, r.from_position);
            lemma_fix_lookup_stable(g0, g1, r.to_fix, r.to_position);
        }
        assert(recs.last() == recs[recs.len() - 1]);
    }
}

/// Records give no segments at a fix id that none of their lookups reaches.
proof fn lemma_record_edges_absent(g: AirwayGraph, recs: Seq<SegmentRecord>, f: int, a: int)
    requires
        f >= g.fix_count(),
    ensures
        record_edges(g, recs, f, a) == Seq::<AirwayEdge>::empty(),
    decreases recs.len(),
{
    if recs.len() > 0 {
        lemma_record_edges_absent(g, recs.drop_last(), f, a);
        let r = recs.last();
        lemma_first_index(g.fix_count() as int, g.fix_at(r.from_fix, r.from_position));
        lemma_first_index(g.fix_count() as int, g.fix_at(r.to_fix, r.to_position));
    }
}

/// Adding a record to the graph of some records gives the graph of the records with
/// it.
pub proof fn lemma_built_step(g0: AirwayGraph, g1: AirwayGraph, recs: Seq<SegmentRecord>, r: SegmentRecord)
    requires
        built_from(g0, recs),
        g1.wf(),
        extends(g1, g0),
        step_recorded(g0, g1, r),
    ensures
        built_from(g1, recs.push(r)),
{
    let rs = recs.push(r);
    assert(rs.drop_last() =~= recs);
    assert(rs.last() == r);
    let (a, f, t) = record_ids(g1, r).unwrap();
    assert forall|i: int| 0 <= i < rs.len() implies record_ids(g1, #[trigger] rs[i]) is Some by {
        if i < recs.len() {
            assert(rs[i] == recs[i]);
            lemma_record_edges_stable(g0, g1, recs, 0, 0);
        }
    }
    assert forall|f2: int, a2: int| 0 <= f2 < g1.fix_count() implies #[trigger] g1.edges(f2, a2)
        == record_edges(g1, rs, f2, a2) by {
        lemma_record_edges_stable(g0, g1, recs, f2, a2);
        if f2 < g0.fix_count() {
            assert(g0.edges(f2, a2) == record_edges(g0, recs, f2, a2));
        } else {
            lemma_record_edges_absent(g0, recs, f2, a2);
        }
        assert(edges_or_empty(g0, f2, a2) == record_edges(g1, recs, f2, a2));
        if !((f2 == f || f2 == t) && a2 == a) {
            assert(g1.edges(f2, a2) == edges_or_empty(g0, f2, a2));
        }
    }
}

/// The next segment of an airway after arriving, from fix `prev`, at a fix with the
/// segments `es`: of two segments the first that does not lead back; a single
/// segment unless it leads back; none otherwise (an end of the airway, or a branch).
pub open spec fn next_edge(es: Seq<AirwayEdge>, prev: int) -> Option<AirwayEdge> {
    if es.len() == 2 {
        if es[0].to.0 != prev {
            Some(es[0])
        } else if es[1].to.0 != prev {
            Some(es[1])
        } else {
            None
        }
    } else if es.len() == 1 && es[0].to.0 != prev {
        Some(es[0])
    } else {
        None
    }
}

/// One fix reached along an airway, with the direction flag and minimum level of
/// the segment leading to it.
pub type AirwayStep = (FixId, bool, Option<u32>);

impl AirwayGraph {
    /// The fixes passed when following airway `a`, coming from fix `prev`, along
    /// segment `e` and on until fix `end`: none when the airway ends or branches
    /// first, or when that takes more than `budget` segments.
    pub open spec fn walk(&self, prev: int, e: AirwayEdge, end: int, a: int, budget: nat) -> Option<
        Seq<AirwayStep>,
    >
        decreases budget,
    {
        if budget == 0 {
            None
        } else {
            let step = (e.to, e.valid_direction, e.minimum_level);
            if e.to.0 == end {
                Some(seq![step])
            } else {
                match next_edge(self.edges(e.to.0 as int, a), prev) {
                    None => None,
                    Some(n) => match self.walk(e.to.0 as int, n, end, a, (budget - 1) as nat) {
                        None => None,
                        Some(rest) => Some(seq![step] + rest),
                    },
                }
            }
        }
    }

    /// Follows airway `airway` from `start_fix` along `start_edge` to `end`, taking at
    /// most as many segments as the graph has fixes (see [`AirwayGraph::walk`]).
    fn traverse_airway(
        &self,
        start_fix: FixId,
        start_edge: &AirwayEdge,
        end: FixId,
        airway: AirwayId,
    ) -> (r: Option<Vec<AirwayStep>>)
        requires
            self.wf(),
            start_edge.to.0 < self.fix_count(),
        ensures
            r matches Some(v) ==> self.walk(
                start_fix.0 as int,
                *start_edge,
                end.0 as int,
                airway.0 as int,
                self.fix_count(),
            ) == Some(v@),
            r is None ==> self.walk(
                start_fix.0 as int,
                *start_edge,
                end.0 as int,
                airway.0 as int,
                self.fix_count(),
            ) is None,
    {
        let ghost whole = self.walk(
            start_fix.0 as int,
            *start_edge,
            end.0 as int,
            airway.0 as int,
            self.fix_count(),
        );
        let mut prev = start_fix;
        let mut expanded: Vec<AirwayStep> = Vec::new();
        let mut edge = *start_edge;
        let mut count: usize = 0;
        loop
            invariant
                self.wf(),
                edge.to.0 < self.fix_count(),
                count <= self.fix_count(),
                whole == self.walk(
                    start_fix.0 as int,
                    *start_edge,
                    end.0 as int,
                    airway.0 as int,
                    self.fix_count(),
                ),
                whole == match self.walk(
                    prev.0 as int,
                    edge,
                    end.0 as int,
                    airway.0 as int,
                    (self.fix_count() - count) as nat,
                ) {
                    None => None,
                    Some(rest) => Some(expanded@ + rest),
                },
            decreases self.fix_count() - count,
        {
            if count >= self.fixes.len() {
                return None;
            }
            count = count + 1;
            let ghost before = expanded@;
            let current = edge.to;
            expanded.push((edge.to, edge.valid_direction, edge.minimum_level));
            if current.0 == end.0 {
                proof {
                    assert(before + seq![(edge.to, edge.valid_direction, edge.minimum_level)]
                        =~= expanded@);
                }
                return Some(expanded);
            }
            let next = match self.edges_of(current, airway) {
                None => {
                    return None;
                },
                Some(edges) => {
                    proof {
                        assert(table_wf(
                            self.fixes@[current.0 as int].edges@,
                            self.fixes@.len(),
                            self.airway_name_by_id@.len(),
                        ));
                    }
                    if edges.len() == 2 {
                        if edges[0].to.0 != prev.0 {
                            edges[0]
                        } else if edges[1].to.0 != prev.0 {
                            edges[1]
                        } else {
                            return None;
                        }
                    } else if edges.len() == 1 && edges[0].to.0 != prev.0 {
                        edges[0]
                    } else {
                        return None;
                    }
                },
            };
            proof {
                assert(next_edge(self.edges(current.0 as int, airway.0 as int), prev.0 as int)
                    == Some(next));
                let step = (edge.to, edge.valid_direction, edge.minimum_level);
                match self.walk(
                    current.0 as int,
                    next,
                    end.0 as int,
                    airway.0 as int,
                    (self.fix_count() - count) as nat,
                ) {
                    None => {},
                    Some(rest) => {
                        assert(before + (seq![step] + rest) =~= expanded@ + rest);
                    },
                }
                lemma_edge_target(self, current.0 as int, airway.0 as int, next);
            }
            prev = current;
            edge = next;
        }
    }
}

/// A walk in a consistent graph passes only fixes of the graph.
proof fn lemma_walk_in_graph(g: &AirwayGraph, prev: int, e: AirwayEdge, end: int, a: int, budget: nat)
    requires
        g.wf(),
        e.to.0 < g.fix_count(),
    ensures
        g.walk(prev, e, end, a, budget) matches Some(v) ==> forall|i: int|
            0 <= i < v.len() ==> (#[trigger] v[i]).0.0 < g.fix_count(),
    decreases budget,
{
    if budget > 0 && e.to.0 != end {
        match next_edge(g.edges(e.to.0 as int, a), prev) {
            None => {},
            Some(n) => {
                assert(g.edges(e.to.0 as int, a).contains(n)) by {
                    let es = g.edges(e.to.0 as int, a);
                    if es.len() == 2 && es[0].to.0 != prev {
                        assert(es[0] == n);
                    } else if es.len() == 2 {
                        assert(es[1] == n);
                    } else {
                        assert(es[0] == n);
                    }
                }
                lemma_edge_target(g, e.to.0 as int, a, n);
                lemma_walk_in_graph(g, e.to.0 as int, n, end, a, (budget - 1) as nat);
                match g.walk(e.to.0 as int, n, end, a, (budget - 1) as nat) {
                    None => {},
                    Some(rest) => {
                        let v = seq![(e.to, e.valid_direction, e.minimum_level)] + rest;
                        assert forall|i: int| 0 <= i < v.len() implies (#[trigger] v[i]).0.0
                            < g.fix_count() by {
                            if i > 0 {
                                assert(v[i] == rest[i - 1]);
                            }
                        }
                    },
                }
            },
        }
    }
}

/// A segment of a consistent graph leads to one of its fixes.
proof fn lemma_edge_target(g: &AirwayGraph, f: int, a: int, e: AirwayEdge)
    requires
        g.wf(),
        0 <= f < g.fix_count(),
        g.edges(f, a).contains(e),
    ensures
        e.to.0 < g.fix_count(),
{
    let t = g.fixes@[f].edges@;
    assert(table_wf(t, g.fixes@.len(), g.airway_name_by_id@.len()));
    lemma_edge_list_cases(t, a);
    let k = choose|k: int| 0 <= k < g.edges(f, a).len() && g.edges(f, a)[k] == e;
    if has_entry(t, a) {
        let j = choose|j: int| 0 <= j < t.len() && t[j].0.0 == a && edge_list(t, a) == t[j].1@;
        assert(t[j].1@[k] == e);
    }
}

impl AirwayGraph {
    /// The fix an airway expansion starts from: the fix of that name at that place,
    /// else the first fix of that name on the airway.
    pub open spec fn start_lookup(&self, name: Seq<char>, pos: (i64, i64), a: int) -> Option<int> {
        match self.fix_lookup(name, pos) {
            Some(s) => Some(s),
            None => self.fix_on_airway_lookup(name, a),
        }
    }

    /// The steps of airway `airway` from the fix `start_name` at `start_pos` to the
    /// fix `end`: the airway and both fixes must be known, the start fix on the
    /// airway with at most two segments of it, and the walk along the first of these
    /// that reaches `end` is taken.
    pub open spec fn expansion(
        &self,
        start_name: Seq<char>,
        start_pos: (i64, i64),
        end: Seq<char>,
        airway: Seq<char>,
    ) -> Option<Seq<AirwayStep>> {
        match self.airway_lookup(airway) {
            None => None,
            Some(a) => match self.start_lookup(start_name, start_pos, a) {
                None => None,
                Some(s) => if !self.on_airway(s, a) {
                    None
                } else {
                    match self.fix_on_airway_lookup(end, a) {
                        None => None,
                        Some(e) => {
                            let es = self.edges(s, a);
                            let n = self.fix_count();
                            if es.len() > 2 {
                                None
                            } else if es.len() >= 1 && self.walk(s, es[0], e, a, n) is Some {
                                self.walk(s, es[0], e, a, n)
                            } else if es.len() >= 2 {
                                self.walk(s, es[1], e, a, n)
                            } else {
                                None
                            }
                        },
                    }
                },
            },
        }
    }

    /// The fix reached by a step, as an [`AirwayFix`].
    pub open spec fn step_matches(&self, step: AirwayStep, af: AirwayFix) -> bool {
        &&& af.fix.designator@ == self.fix_names()[step.0.0 as int]
        &&& af.fix.coordinate == self.fix_positions()[step.0.0 as int]
        &&& af.valid_direction == step.1
        &&& af.minimum_level == step.2
    }

    /// The fixes of airway `airway` from `start` to the fix named `end`, each with
    /// the direction flag and minimum level of the segment leading to it (see
    /// [`AirwayGraph::expansion`]).
    pub fn expand_airway_segment(&self, start: &Fix, end: &str, airway: &str) -> (r: Option<
        Vec<AirwayFix>,
    >)
        requires
            self.wf(),
        ensures
            match self.expansion(start.designator@, start.coordinate, end@, airway@) {
                None => r is None,
                Some(steps) => r matches Some(v) && v@.len() == steps.len() && forall|i: int|
                    0 <= i < steps.len() ==> self.step_matches(steps[i], #[trigger] v@[i]),
            },
    {
        let a = match self.find_airway(airway) {
            None => {
                return None;
            },
            Some(a) => a,
        };
        let s = match self.find_fix(start.designator.as_str(), start.coordinate) {
            Some(s) => s,
            None => match self.find_fix_on_airway(start.designator.as_str(), a) {
                None => {
                    return None;
                },
                Some(s) => s,
            },
        };
        proof {
            lemma_first_index(
                self.fix_count() as int,
                self.fix_at(start.designator@, start.coordinate),
            );
            lemma_first_index(
                self.fix_count() as int,
                self.fix_on(start.designator@, a.0 as int),
            );
        }
        let edges = match self.edges_of(s, a) {
            None => {
                return None;
            },
            Some(es) => es,
        };
        let e = match self.find_fix_on_airway(end, a) {
            None => {
                return None;
            },
            Some(e) => e,
        };
        if edges.len() > 2 {
            return None;
        }
        let mut found: Option<Vec<AirwayStep>> = None;
        if edges.len() >= 1 {
            proof {
                assert(self.edges(s.0 as int, a.0 as int).contains(edges@[0]));
                lemma_edge_target(self, s.0 as int, a.0 as int, edges@[0]);
            }
            found = self.traverse_airway(s, &edges[0], e, a);
        }
        if found.is_none() && edges.len() >= 2 {
            proof {
                assert(self.edges(s.0 as int, a.0 as int).contains(edges@[1]));
                lemma_edge_target(self, s.0 as int, a.0 as int, edges@[1]);
            }
            found = self.traverse_airway(s, &edges[1], e, a);
        }
        match found {
            None => None,
            Some(steps) => {
                proof {
                    let n = self.fix_count();
                    assert(self.edges(s.0 as int, a.0 as int).contains(edges@[0]));
                    lemma_edge_target(self, s.0 as int, a.0 as int, edges@[0]);
                    lemma_walk_in_graph(self, s.0 as int, edges@[0], e.0 as int, a.0 as int, n);
                    if edges@.len() >= 2 {
                        assert(self.edges(s.0 as int, a.0 as int).contains(edges@[1]));
                        lemma_edge_target(self, s.0 as int, a.0 as int, edges@[1]);
                        lemma_walk_in_graph(self, s.0 as int, edges@[1], e.0 as int, a.0 as int, n);
                    }
                }
                Some(self.steps_to_fixes(&steps))
            },
        }
    }

    /// The fixes reached by steps, by name and position.
    fn steps_to_fixes(&self, steps: &Vec<AirwayStep>) -> (r: Vec<AirwayFix>)
        requires
            self.wf(),
            forall|i: int| 0 <= i < steps@.len() ==> (#[trigger] steps@[i]).0.0 < self.fix_count(),
        ensures
            r@.len() == steps@.len(),
            forall|i: int| 0 <= i < steps@.len() ==> self.step_matches(steps@[i], #[trigger] r@[i]),
    {
        let mut r: Vec<AirwayFix> = Vec::new();
        let mut i: usize = 0;
        while i < steps.len()
            invariant
                self.wf(),
                i <= steps@.len(),
                r@.len() == i,
                forall|k: int| 0 <= k < steps@.len() ==> (#[trigger] steps@[k]).0.0 < self.fix_count(),
                forall|k: int| 0 <= k < i ==> self.step_matches(steps@[k], #[trigger] r@[k]),
            decreases steps@.len() - i,
        {
            let (id, valid_direction, minimum_level) = steps[i];
            let af = AirwayFix {
                fix: Fix {
                    designator: self.fix_name_by_id[id.0].clone(),
                    coordinate: self.fixes[id.0].position,
                },
                valid_direction,
                minimum_level,
            };
            r.push(af);
            i = i + 1;
        }
        r
    }
}

/// A walk that arrives stops at `end`: its last fix is `end`.
proof fn lemma_walk_ends(g: &AirwayGraph, prev: int, e: AirwayEdge, end: int, a: int, budget: nat)
    ensures
        g.walk(prev, e, end, a, budget) matches Some(v) ==> v.len() > 0 && v.last().0.0 == end,
    decreases budget,
{
    if budget > 0 && e.to.0 != end {
        match next_edge(g.edges(e.to.0 as int, a), prev) {
            None => {},
            Some(n) => {
                lemma_walk_ends(g, e.to.0 as int, n, end, a, (budget - 1) as nat);
            },
        }
    }
}

/// An airway expansion ends at the fix it was asked to reach: its last fix bears the
/// requested name and lies on the airway.
pub proof fn lemma_expansion_ends_at_end(
    g: &AirwayGraph,
    start_name: Seq<char>,
    start_pos: (i64, i64),
    end: Seq<char>,
    airway: Seq<char>,
)
    requires
        g.wf(),
    ensures
        g.expansion(start_name, start_pos, end, airway) matches Some(steps) ==> {
            &&& steps.len() > 0
            &&& g.fix_names()[steps.last().0.0 as int] == end
            &&& g.on_airway(steps.last().0.0 as int, g.airway_lookup(airway).unwrap())
        },
{
    match g.airway_lookup(airway) {
        None => {},
        Some(a) => match g.start_lookup(start_name, start_pos, a) {
            None => {},
            Some(s) => match g.fix_on_airway_lookup(end, a) {
                None => {},
                Some(e) => {
                    lemma_first_index(g.fix_count() as int, g.fix_on(end, a));
                    let es = g.edges(s, a);
                    let n = g.fix_count();
                    if es.len() >= 1 {
                        lemma_walk_ends(g, s, es[0], e, a, n);
                    }
                    if es.len() >= 2 {
                        lemma_walk_ends(g, s, es[1], e, a, n);
                    }
                },
            },
        },
    }
}

// ---------------------------------------------------------------------------
// The graph as waypoint chains

/// Fixes on airway `a`.
pub open spec fn on_airway_pred(g: AirwayGraph, a: int) -> spec_fn(int) -> bool {
    |f: int| g.on_airway(f, a)
}

/// Fixes on airway `a` with a single segment of it: ends of the airway.
pub open spec fn airway_end_pred(g: AirwayGraph, a: int) -> spec_fn(int) -> bool {
    |f: int| g.on_airway(f, a) && g.edges(f, a).len() == 1
}

impl AirwayGraph {
    /// The fix a chain of airway `a` starts from: its first end, else (a closed
    /// loop) its first fix; none for an airway without fixes.
    pub open spec fn chain_start(&self, a: int) -> Option<int> {
        match first_index(self.fix_count() as int, airway_end_pred(*self, a)) {
            Some(s) => Some(s),
            None => first_index(self.fix_count() as int, on_airway_pred(*self, a)),
        }
    }

    /// The chain from fix `cur`, reached from `prev`, following airway `a` (see
    /// [`next_edge`]) until it ends, branches or comes back to `start`, with at most
    /// `budget` fixes.
    pub open spec fn chain_from(&self, prev: int, cur: int, start: int, a: int, budget: nat) -> Seq<
        FixId,
    >
        decreases budget,
    {
        if budget == 0 {
            seq![]
        } else {
            seq![FixId(cur as usize)] + match next_edge(self.edges(cur, a), prev) {
                Some(e) => if e.to.0 != start {
                    self.chain_from(cur, e.to.0 as int, start, a, (budget - 1) as nat)
                } else {
                    seq![]
                },
                None => seq![],
            }
        }
    }

    /// The fixes of airway `a` as one chain, from [`AirwayGraph::chain_start`], with
    /// at most one fix more than the graph has.
    pub open spec fn chain(&self, a: int) -> Seq<FixId> {
        match self.chain_start(a) {
            Some(s) => self.chain_from(s, s, s, a, self.fix_count() + 1),
            None => seq![],
        }
    }

    /// The segment of airway `a` that leads into position `pos` of a chain from the
    /// fix before it; none for the first position.
    pub open spec fn incoming(&self, chain: Seq<FixId>, pos: int, a: int) -> Option<AirwayEdge> {
        if pos <= 0 {
            None
        } else {
            let es = self.edges(chain[pos - 1].0 as int, a);
            match edge_to_index(es, chain[pos].0 as int) {
                Some(j) => Some(es[j]),
                None => None,
            }
        }
    }

    /// The waypoint at position `pos` of a chain of airway `a`: the fix, and what the
    /// segment leading into it says (valid, with no levels and of unknown type, when
    /// there is none).
    pub open spec fn waypoint(&self, chain: Seq<FixId>, pos: int, a: int) -> WaypointV {
        let f = chain[pos].0 as int;
        let e = self.incoming(chain, pos, a);
        WaypointV {
            fix: self.fix_names()[f],
            coordinate: self.fix_positions()[f],
            valid_direction: match e {
                Some(e) => e.valid_direction,
                None => true,
            },
            minimum_level: match e {
                Some(e) => e.minimum_level,
                None => None,
            },
            maximum_level: match e {
                Some(e) => e.maximum_level,
                None => None,
            },
            airway_type: match e {
                Some(e) => e.airway_type,
                None => AirwayType::Unknown,
            },
        }
    }

    /// The waypoints of airway `a`.
    pub open spec fn waypoints(&self, a: int) -> Seq<WaypointV> {
        let c = self.chain(a);
        Seq::new(c.len(), |p: int| self.waypoint(c, p, a))
    }
}

/// One waypoint of an airway's chain: the fix, and the direction flag, levels and
/// type of the segment leading into it from the waypoint before.
#[derive(Debug)]
pub struct AirwayWaypointView {
    pub fix: String,
    pub coordinate: (i64, i64),
    pub valid_direction: bool,
    pub minimum_level: Option<u32>,
    pub maximum_level: Option<u32>,
    pub airway_type: AirwayType,
}

/// A waypoint, its fix name as a character sequence.
pub struct WaypointV {
    pub fix: Seq<char>,
    pub coordinate: (i64, i64),
    pub valid_direction: bool,
    pub minimum_level: Option<u32>,
    pub maximum_level: Option<u32>,
    pub airway_type: AirwayType,
}

impl View for AirwayWaypointView {
    type V = WaypointV;

    open spec fn view(&self) -> WaypointV {
        WaypointV {
            fix: self.fix@,
            coordinate: self.coordinate,
            valid_direction: self.valid_direction,
            minimum_level: self.minimum_level,
            maximum_level: self.maximum_level,
            airway_type: self.airway_type,
        }
    }
}

pub open spec fn waypoint_views(v: Seq<AirwayWaypointView>) -> Seq<WaypointV> {
    v.map_values(|w: AirwayWaypointView| w@)
}

/// A chain from a fix of the graph passes only fixes of the graph.
proof fn lemma_chain_in_graph(g: &AirwayGraph, prev: int, cur: int, start: int, a: int, budget: nat)
    requires
        g.wf(),
        0 <= cur < g.fix_count(),
    ensures
        forall|i: int|
            0 <= i < g.chain_from(prev, cur, start, a, budget).len() ==> (#[trigger] g.chain_from(
                prev,
                cur,
                start,
                a,
                budget,
            )[i]).0 < g.fix_count(),
    decreases budget,
{
    if budget > 0 {
        let c = g.chain_from(prev, cur, start, a, budget);
        match next_edge(g.edges(cur, a), prev) {
            Some(e) => {
                if e.to.0 != start {
                    assert(g.edges(cur, a).contains(e)) by {
                        let es = g.edges(cur, a);
                        if es.len() == 2 && es[0].to.0 != prev {
                            assert(es[0] == e);
                        } else if es.len() == 2 {
                            assert(es[1] == e);
                        } else {
                            assert(es[0] == e);
                        }
                    }
                    lemma_edge_target(g, cur, a, e);
                    lemma_chain_in_graph(g, cur, e.to.0 as int, start, a, (budget - 1) as nat);
                    let rest = g.chain_from(cur, e.to.0 as int, start, a, (budget - 1) as nat);
                    assert forall|i: int| 0 <= i < c.len() implies (#[trigger] c[i]).0 < g.fix_count() by {
                        if i > 0 {
                            assert(c[i] == rest[i - 1]);
                        }
                    }
                } else {
                    assert forall|i: int| 0 <= i < c.len() implies (#[trigger] c[i]).0 < g.fix_count() by {
                        assert(c.len() == 1);
                    }
                }
            },
            None => {
                assert forall|i: int| 0 <= i < c.len() implies (#[trigger] c[i]).0 < g.fix_count() by {
                    assert(c.len() == 1);
                }
            },
        }
    }
}

impl AirwayGraph {
    /// The fixes of airway `a` as one chain (see [`AirwayGraph::chain`]).
    fn chain_fix_ids(&self, a: AirwayId) -> (r: Vec<FixId>)
        requires
            self.wf(),
        ensures
            r@ == self.chain(a.0 as int),
            forall|i: int| 0 <= i < r@.len() ==> (#[trigger] r@[i]).0 < self.fix_count(),
    {
        let n = self.fixes.len();
        let ghost pe = airway_end_pred(*self, a.0 as int);
        let ghost po = on_airway_pred(*self, a.0 as int);
        // the first end of the airway, else its first fix
        let mut start: Option<usize> = None;
        let mut j: usize = 0;
        while j < n && start.is_none()
            invariant
                self.wf(),
                n == self.fixes@.len(),
                j <= n,
                pe == airway_end_pred(*self, a.0 as int),
                start is None ==> first_index(j as int, pe) is None,
                start matches Some(x) ==> x < n && first_index(n as int, pe) == Some(x as int),
            decreases n - j,
        {
            match self.edges_of(FixId(j), a) {
                Some(es) => {
                    if es.len() == 1 {
                        proof {
                            assert(pe(j as int));
                            lemma_first_index_extend(j + 1, n as int, pe);
                        }
                        start = Some(j);
                    }
                },
                None => {},
            }
            proof {
                if start is None {
                    assert(!pe(j as int));
                }
            }
            j = j + 1;
        }
        if start.is_none() {
            let mut k: usize = 0;
            while k < n && start.is_none()
                invariant
                    self.wf(),
                    n == self.fixes@.len(),
                    k <= n,
                    po == on_airway_pred(*self, a.0 as int),
                    start is None ==> first_index(k as int, po) is None,
                    start matches Some(x) ==> x < n && first_index(n as int, po) == Some(x as int),
                decreases n - k,
            {
                if self.edges_of(FixId(k), a).is_some() {
                    proof {
                        assert(po(k as int));
                        lemma_first_index_extend(k + 1, n as int, po);
                    }
                    start = Some(k);
                } else {
                    proof {
                        assert(!po(k as int));
                    }
                }
                k = k + 1;
            }
            proof {
                if start is None {
                    assert(first_index(n as int, pe) is None);
                    assert(first_index(n as int, po) is None);
                    assert(self.chain_start(a.0 as int) is None);
                }
            }
        }
        let s = match start {
            None => {
                return Vec::new();
            },
            Some(s) => s,
        };
        proof {
            assert(self.chain_start(a.0 as int) == Some(s as int));
        }
        let ghost whole = self.chain(a.0 as int);
        let mut r: Vec<FixId> = Vec::new();
        let mut prev = s;
        let mut cur = s;
        let mut count: usize = 0;
        loop
            invariant
                self.wf(),
                n == self.fixes@.len(),
                s < n,
                cur < n,
                count <= n,
                whole == self.chain(a.0 as int),
                whole == r@ + self.chain_from(
                    prev as int,
                    cur as int,
                    s as int,
                    a.0 as int,
                    (n + 1 - count) as nat,
                ),
                forall|i: int| 0 <= i < r@.len() ==> (#[trigger] r@[i]).0 < n,
            decreases n - count,
        {
            let ghost before = r@;
            let ghost budget = (n + 1 - count) as nat;
            r.push(FixId(cur));
            if count == n {
                proof {
                    let rest = self.chain_from(cur as int, 0, s as int, a.0 as int, 0);
                    assert(self.chain_from(prev as int, cur as int, s as int, a.0 as int, 1)
                        =~= seq![FixId(cur)] + match next_edge(self.edges(cur as int, a.0 as int), prev as int) {
                        Some(e) => if e.to.0 != s {
                            self.chain_from(cur as int, e.to.0 as int, s as int, a.0 as int, 0)
                        } else {
                            seq![]
                        },
                        None => seq![],
                    });
                    assert(r@ =~= before + seq![FixId(cur)]);
                    assert(whole =~= r@);
                }
                return r;
            }
            count = count + 1;
            let next = match self.edges_of(FixId(cur), a) {
                None => None,
                Some(edges) => {
                    if edges.len() == 2 {
                        if edges[0].to.0 != prev {
                            Some(edges[0])
                        } else if edges[1].to.0 != prev {
                            Some(edges[1])
                        } else {
                            None
                        }
                    } else if edges.len() == 1 && edges[0].to.0 != prev {
                        Some(edges[0])
                    } else {
                        None
                    }
                },
            };
            proof {
                assert(next == next_edge(self.edges(cur as int, a.0 as int), prev as int));
            }
            match next {
                Some(e) => {
                    if e.to.0 != s {
                        proof {
                            assert(self.edges(cur as int, a.0 as int).contains(e)) by {
                                let es = self.edges(cur as int, a.0 as int);
                                if es.len() == 2 && es[0].to.0 != prev {
                                    assert(es[0] == e);
                                } else if es.len() == 2 {
                                    assert(es[1] == e);
                                } else {
                                    assert(es[0] == e);
                                }
                            }
                            lemma_edge_target(self, cur as int, a.0 as int, e);
                            assert(r@ + self.chain_from(
                                cur as int,
                                e.to.0 as int,
                                s as int,
                                a.0 as int,
                                (budget - 1) as nat,
                            ) =~= before + (seq![FixId(cur)] + self.chain_from(
                                cur as int,
                                e.to.0 as int,
                                s as int,
                                a.0 as int,
                                (budget - 1) as nat,
                            )));
                        }
                        prev = cur;
                        cur = e.to.0;
                    } else {
                        proof {
                            assert(whole =~= r@);
                        }
                        return r;
                    }
                },
                None => {
                    proof {
                        assert(whole =~= r@);
                    }
                    return r;
                },
            }
        }
    }
}

/// The first segment towards `to` in a list (see [`edge_to_index`]).
fn find_edge_to(es: &Vec<AirwayEdge>, to: FixId) -> (r: Option<AirwayEdge>)
    ensures
        r == match edge_to_index(es@, to.0 as int) {
            Some(j) => Some(es@[j]),
            None => None::<AirwayEdge>,
        },
{
    let mut j: usize = 0;
    while j < es.len()
        invariant
            j <= es@.len(),
            edge_to_index(es@.take(j as int), to.0 as int) is None,
        decreases es@.len() - j,
    {
        proof {
            assert(es@.take(j + 1).drop_last() =~= es@.take(j as int));
        }
        if es[j].to.0 == to.0 {
            proof {
                lemma_edge_to_index_prefix(es@, j as int, to.0 as int);
            }
            return Some(es[j]);
        }
        j = j + 1;
    }
    proof {
        assert(es@.take(es@.len() as int) =~= es@);
    }
    None
}

impl AirwayGraph {
    /// The waypoints of one airway (see [`AirwayGraph::waypoints`]).
    fn airway_waypoints(&self, a: AirwayId) -> (r: Vec<AirwayWaypointView>)
        requires
            self.wf(),
        ensures
            waypoint_views(r@) == self.waypoints(a.0 as int),
    {
        let chain = self.chain_fix_ids(a);
        let ghost c = chain@;
        let mut r: Vec<AirwayWaypointView> = Vec::new();
        let mut pos: usize = 0;
        while pos < chain.len()
            invariant
                self.wf(),
                c == chain@,
                c == self.chain(a.0 as int),
                forall|i: int| 0 <= i < c.len() ==> (#[trigger] c[i]).0 < self.fix_count(),
                pos <= c.len(),
                waypoint_views(r@) == Seq::new(pos as nat, |p: int| self.waypoint(c, p, a.0 as int)),
            decreases c.len() - pos,
        {
            let f = chain[pos];
            let incoming = if pos == 0 {
                None
            } else {
                match self.edges_of(chain[pos - 1], a) {
                    None => None,
                    Some(es) => find_edge_to(es, f),
                }
            };
            proof {
                if pos > 0 {
                    assert(incoming == self.incoming(c, pos as int, a.0 as int));
                }
            }
            let w = AirwayWaypointView {
                fix: self.fix_name_by_id[f.0].clone(),
                coordinate: self.fixes[f.0].position,
                valid_direction: match incoming {
                    Some(e) => e.valid_direction,
                    None => true,
                },
                minimum_level: match incoming {
                    Some(e) => e.minimum_level,
                    None => None,
                },
                maximum_level: match incoming {
                    Some(e) => e.maximum_level,
                    None => None,
                },
                airway_type: match incoming {
                    Some(e) => e.airway_type,
                    None => AirwayType::Unknown,
                },
            };
            let ghost before = waypoint_views(r@);
            r.push(w);
            proof {
                assert(w@ == self.waypoint(c, pos as int, a.0 as int));
                assert(waypoint_views(r@) =~= before.push(w@));
                assert(waypoint_views(r@) =~= Seq::new((pos + 1) as nat, |p: int| self.waypoint(c, p, a.0 as int)));
            }
            pos = pos + 1;
        }
        r
    }

    /// The graph as chains of waypoints, airway by airway in the order the airways
    /// were added, each under its name (see [`AirwayGraph::waypoints`]).
    pub fn to_view(&self) -> (r: Vec<(String, Vec<AirwayWaypointView>)>)
        requires
            self.wf(),
        ensures
            r@.len() == self.airway_names().len(),
            forall|i: int|
                0 <= i < r@.len() ==> (#[trigger] r@[i]).0@ == self.airway_names()[i]
                    && waypoint_views(r@[i].1@) == self.waypoints(i),
    {
        let mut r: Vec<(String, Vec<AirwayWaypointView>)> = Vec::new();
        let mut i: usize = 0;
        while i < self.airway_name_by_id.len()
            invariant
                self.wf(),
                i <= self.airway_name_by_id@.len(),
                r@.len() == i,
                forall|k: int|
                    0 <= k < i ==> (#[trigger] r@[k]).0@ == self.airway_names()[k]
                        && waypoint_views(r@[k].1@) == self.waypoints(k),
            decreases self.airway_name_by_id@.len() - i,
        {
            let ws = self.airway_waypoints(AirwayId(i));
            let name = self.airway_name_by_id[i].clone();
            r.push((name, ws));
            i = i + 1;
        }
        r
    }
}

/// Whether fix `f` has a segment of airway `a` towards fix `t`.
pub open spec fn has_segment(g: AirwayGraph, a: int, f: int, t: int) -> bool {
    edge_to_index(g.edges(f, a), t) is Some
}

/// `g1` extends `g0` and keeps all its segments.
pub open spec fn grows(g1: AirwayGraph, g0: AirwayGraph) -> bool {
    &&& extends(g1, g0)
    &&& forall|a: int, f: int, t: int|
        0 <= f < g0.fix_count() && #[trigger] has_segment(g0, a, f, t) ==> has_segment(g1, a, f, t)
}

/// The segment between two waypoints of airway `name` is recorded both ways.
pub open spec fn pair_recorded(g: AirwayGraph, name: Seq<char>, w1: WaypointV, w2: WaypointV) -> bool {
    match (
        g.airway_lookup(name),
        g.fix_lookup(w1.fix, w1.coordinate),
        g.fix_lookup(w2.fix, w2.coordinate),
    ) {
        (Some(a), Some(f), Some(t)) => has_segment(g, a, f, t) && has_segment(g, a, t, f),
        _ => false,
    }
}

proof fn lemma_add_edge_keeps(es: Seq<AirwayEdge>, e: AirwayEdge, t: int)
    ensures
        edge_to_index(es, t) is Some ==> edge_to_index(add_edge(es, e), t) is Some,
        edge_to_index(add_edge(es, e), e.to.0 as int) is Some,
{
    lemma_edge_to_index_bounds(es, t);
    lemma_edge_to_index_bounds(es, e.to.0 as int);
    let r = add_edge(es, e);
    match edge_to_index(es, e.to.0 as int) {
        Some(j) => {
            // one position is updated, keeping its target
            assert(r[j].to == es[j].to);
            if edge_to_index(es, t) is Some {
                let i = edge_to_index(es, t).unwrap();
                assert(r[i].to.0 == t);
                lemma_edge_to_index_found(r, i, t);
            }
            lemma_edge_to_index_found(r, j, e.to.0 as int);
        },
        None => {
            if edge_to_index(es, t) is Some {
                let i = edge_to_index(es, t).unwrap();
                assert(r[i] == es[i]);
                lemma_edge_to_index_found(r, i, t);
            }
            assert(r[es.len() as int] == e);
            lemma_edge_to_index_found(r, es.len() as int, e.to.0 as int);
        },
    }
}

/// A list with a segment towards `t` at position `i` has a first one.
proof fn lemma_edge_to_index_found(es: Seq<AirwayEdge>, i: int, t: int)
    requires
        0 <= i < es.len(),
        es[i].to.0 == t,
    ensures
        edge_to_index(es, t) is Some,
    decreases es.len(),
{
    if i < es.len() - 1 {
        lemma_edge_to_index_found(es.drop_last(), i, t);
    }
}

/// Growing is transitive.
pub proof fn lemma_grows_trans(g2: AirwayGraph, g1: AirwayGraph, g0: AirwayGraph)
    requires
        g0.wf(),
        g1.wf(),
        g2.wf(),
        grows(g2, g1),
        grows(g1, g0),
    ensures
        grows(g2, g0),
{
    assert(g2.fix_names().take(g0.fix_count() as int) =~= g0.fix_names()) by {
        assert(g2.fix_names().take(g0.fix_count() as int) =~= g2.fix_names().take(
            g1.fix_count() as int,
        ).take(g0.fix_count() as int));
    }
    assert(g2.fix_positions().take(g0.fix_count() as int) =~= g0.fix_positions()) by {
        assert(g2.fix_positions().take(g0.fix_count() as int) =~= g2.fix_positions().take(
            g1.fix_count() as int,
        ).take(g0.fix_count() as int));
    }
    assert(g2.airway_names().take(g0.airway_names().len() as int) =~= g0.airway_names()) by {
        assert(g2.airway_names().take(g0.airway_names().len() as int) =~= g2.airway_names().take(
            g1.airway_names().len() as int,
        ).take(g0.airway_names().len() as int));
    }
}

/// Every consistent graph grows into itself.
pub proof fn lemma_grows_refl(g: AirwayGraph)
    requires
        g.wf(),
    ensures
        grows(g, g),
{
    assert(g.fix_names().take(g.fix_count() as int) =~= g.fix_names());
    assert(g.fix_positions().take(g.fix_count() as int) =~= g.fix_positions());
    assert(g.airway_names().take(g.airway_names().len() as int) =~= g.airway_names());
}

/// A recorded segment stays recorded as the graph grows.
proof fn lemma_pair_recorded_stable(
    g0: AirwayGraph,
    g1: AirwayGraph,
    name: Seq<char>,
    w1: WaypointV,
    w2: WaypointV,
)
    requires
        g0.wf(),
        g1.wf(),
        grows(g1, g0),
        pair_recorded(g0, name, w1, w2),
    ensures
        pair_recorded(g1, name, w1, w2),
{
    lemma_airway_lookup_stable(g0, g1, name);
    lemma_fix_lookup_stable(g0, g1, w1.fix, w1.coordinate);
    lemma_fix_lookup_stable(g0, g1, w2.fix, w2.coordinate);
    lemma_first_index(g0.fix_count() as int, g0.fix_at(w1.fix, w1.coordinate));
    lemma_first_index(g0.fix_count() as int, g0.fix_at(w2.fix, w2.coordinate));
    let a = g0.airway_lookup(name).unwrap();
    let f = g0.fix_lookup(w1.fix, w1.coordinate).unwrap();
    let t = g0.fix_lookup(w2.fix, w2.coordinate).unwrap();
    assert(has_segment(g0, a, f, t));
    assert(has_segment(g0, a, t, f));
}

/// The record of the segment of airway `name` between two neighbouring waypoints of
/// a chain: from the first to the second, with what the second says of the segment
/// leading into it.
pub open spec fn view_record(name: Seq<char>, from: WaypointV, to: WaypointV) -> SegmentRecord {
    SegmentRecord {
        airway: name,
        from_fix: from.fix,
        from_position: from.coordinate,
        to_fix: to.fix,
        to_position: to.coordinate,
        valid_direction: to.valid_direction,
        minimum_level: to.minimum_level,
        maximum_level: to.maximum_level,
        airway_type: to.airway_type,
    }
}

/// The records of a chain of waypoints of airway `name`: one for each two
/// neighbouring waypoints, in order.
pub open spec fn chain_records(name: Seq<char>, ws: Seq<WaypointV>) -> Seq<SegmentRecord>
    decreases ws.len(),
{
    if ws.len() < 2 {
        seq![]
    } else {
        chain_records(name, ws.drop_last()).push(view_record(name, ws[ws.len() - 2], ws.last()))
    }
}

/// The records of chains, chain after chain.
pub open spec fn view_records(view: Seq<(Seq<char>, Seq<WaypointV>)>) -> Seq<SegmentRecord>
    decreases view.len(),
{
    if view.len() == 0 {
        seq![]
    } else {
        view_records(view.drop_last()) + chain_records(view.last().0, view.last().1)
    }
}

/// A view's chains as names and waypoint values.
pub open spec fn chains_of(view: Seq<(String, Vec<AirwayWaypointView>)>) -> Seq<(Seq<char>, Seq<WaypointV>)> {
    view.map_values(|c: (String, Vec<AirwayWaypointView>)| (c.0@, waypoint_views(c.1@)))
}

impl AirwayGraph {
    /// Records the segment of airway `awy` between two neighbouring waypoints of a
    /// chain, adding their fixes where they are new: leaving the first with what the
    /// second waypoint says, leaving the second as not valid in that direction.
    fn insert_view_segment(
        &mut self,
        awy: AirwayId,
        from: &AirwayWaypointView,
        to: &AirwayWaypointView,
        Ghost(name): Ghost<Seq<char>>,
    )
        requires
            old(self).wf(),
            awy.0 < old(self).airway_names().len(),
            old(self).airway_lookup(name) == Some(awy.0 as int),
        ensures
            final(self).wf(),
            grows(*final(self), *old(self)),
            final(self).airway_names() == old(self).airway_names(),
            step_recorded(*old(self), *final(self), view_record(name, from@, to@)),
            ({
                let g = *final(self);
                &&& g.fix_lookup(from@.fix, from@.coordinate) is Some
                &&& g.fix_lookup(to@.fix, to@.coordinate) is Some
                &&& has_segment(
                    g,
                    awy.0 as int,
                    g.fix_lookup(from@.fix, from@.coordinate).unwrap(),
                    g.fix_lookup(to@.fix, to@.coordinate).unwrap(),
                )
                &&& has_segment(
                    g,
                    awy.0 as int,
                    g.fix_lookup(to@.fix, to@.coordinate).unwrap(),
                    g.fix_lookup(from@.fix, from@.coordinate).unwrap(),
                )
            }),
    {
        let ghost g0 = *self;
        let from_id = self.get_or_insert_fix_id(from.coordinate, from.fix.as_str());
        let ghost g1 = *self;
        let to_id = self.get_or_insert_fix_id(to.coordinate, to.fix.as_str());
        let ghost g2 = *self;
        proof {
            assert(g1.fix_names().take(g0.fix_count() as int) =~= g0.fix_names());
            assert(g1.fix_positions().take(g0.fix_count() as int) =~= g0.fix_positions());
            assert(g1.airway_names().take(g0.airway_names().len() as int) =~= g0.airway_names());
            assert(g2.fix_names().take(g1.fix_count() as int) =~= g1.fix_names());
            assert(g2.fix_positions().take(g1.fix_count() as int) =~= g1.fix_positions());
            assert(g2.airway_names().take(g1.airway_names().len() as int) =~= g1.airway_names());
            lemma_fix_lookup_stable(g1, g2, from@.fix, from@.coordinate);
            lemma_first_index(g2.fix_count() as int, g2.fix_at(from@.fix, from@.coordinate));
            lemma_first_index(g2.fix_count() as int, g2.fix_at(to@.fix, to@.coordinate));
        }
        self.insert_or_update_edge(
            from_id,
            awy,
            AirwayEdge {
                to: to_id,
                valid_direction: to.valid_direction,
                minimum_level: to.minimum_level,
                maximum_level: to.maximum_level,
                airway_type: to.airway_type,
            },
        );
        let ghost g3 = *self;
        self.insert_or_update_edge(
            to_id,
            awy,
            AirwayEdge {
                to: from_id,
                valid_direction: false,
                minimum_level: to.minimum_level,
                maximum_level: to.maximum_level,
                airway_type: to.airway_type,
            },
        );
        proof {
            let g4 = *self;
            let f = from_id.0 as int;
            let t = to_id.0 as int;
            let a = awy.0 as int;
            assert(g4.fix_at(from@.fix, from@.coordinate) =~= g2.fix_at(from@.fix, from@.coordinate));
            assert(g4.fix_at(to@.fix, to@.coordinate) =~= g2.fix_at(to@.fix, to@.coordinate));
            assert(g4.fix_names().take(g0.fix_count() as int) =~= g0.fix_names());
            assert(g4.fix_positions().take(g0.fix_count() as int) =~= g0.fix_positions());
            assert(g4.airway_names().take(g0.airway_names().len() as int) =~= g0.airway_names());
            assert(g4.airway_named(name) =~= g0.airway_named(name));
            // what each step left in the segment lists
            assert forall|g: int, b: int| 0 <= g < g2.fix_count() implies #[trigger] g2.edges(g, b)
                == edges_or_empty(g0, g, b) by {
                if g < g0.fix_count() {
                    assert(g1.edges(g, b) == g0.edges(g, b));
                    assert(g2.edges(g, b) == g1.edges(g, b));
                } else if g < g1.fix_count() {
                    assert(g2.edges(g, b) == g1.edges(g, b));
                }
            }
            assert forall|g: int, b: int|
                0 <= g < g4.fix_count() && !((g == f || g == t) && b == a) implies #[trigger] g4.edges(g, b)
                == edges_or_empty(g0, g, b) by {
                assert(g3.edges(g, b) == g2.edges(g, b));
            }
            let rec = view_record(name, from@, to@);
            assert(record_ids(g4, rec) == Some((a, f, t)));
            assert(segment_recorded(g0, g4, a, f, t, forward_edge(rec, t), backward_edge(rec, f)));
            // the new segments
            lemma_add_edge_keeps(g2.edges(f, a), g3.edges(f, a)[0], t);
            lemma_add_edge_keeps(g2.edges(f, a), AirwayEdge {
                to: to_id,
                valid_direction: to.valid_direction,
                minimum_level: to.minimum_level,
                maximum_level: to.maximum_level,
                airway_type: to.airway_type,
            }, t);
            assert(has_segment(g3, a, f, t));
            lemma_add_edge_keeps(g3.edges(t, a), AirwayEdge {
                to: from_id,
                valid_direction: false,
                minimum_level: to.minimum_level,
                maximum_level: to.maximum_level,
                airway_type: to.airway_type,
            }, f);
            assert(has_segment(g4, a, t, f));
            if f != t {
                assert(g4.edges(f, a) == g3.edges(f, a));
            }
            assert(has_segment(g4, a, f, t));
            // the old segments
            assert forall|b: int, x: int, y: int|
                0 <= x < g0.fix_count() && #[trigger] has_segment(g0, b, x, y) implies has_segment(
                g4,
                b,
                x,
                y,
            ) by {
                assert(g1.edges(x, b) == g0.edges(x, b));
                assert(g2.edges(x, b) == g1.edges(x, b));
                if x == f && b == a {
                    lemma_add_edge_keeps(g2.edges(x, b), AirwayEdge {
                        to: to_id,
                        valid_direction: to.valid_direction,
                        minimum_level: to.minimum_level,
                        maximum_level: to.maximum_level,
                        airway_type: to.airway_type,
                    }, y);
                } else {
                    assert(g3.edges(x, b) == g2.edges(x, b));
                }
                if x == t && b == a {
                    lemma_add_edge_keeps(g3.edges(x, b), AirwayEdge {
                        to: from_id,
                        valid_direction: false,
                        minimum_level: to.minimum_level,
                        maximum_level: to.maximum_level,
                        airway_type: to.airway_type,
                    }, y);
                } else {
                    assert(g4.edges(x, b) == g3.edges(x, b));
                }
            }
        }
    }

    /// Builds a graph from waypoint chains (see [`AirwayGraph::to_view`]), airway by
    /// airway in the order given: each two neighbouring waypoints of a chain become a
    /// segment, recorded both ways as [`AirwayGraph::insert_view_segment`] does. The
    /// graph is exactly that of the chains' records (see [`view_records`]).
    pub fn from_view(view: &Vec<(String, Vec<AirwayWaypointView>)>) -> (g: AirwayGraph)
        ensures
            g.wf(),
            built_from(g, view_records(chains_of(view@))),
            forall|i: int, k: int|
                0 <= i < view@.len() && 0 <= k < view@[i].1@.len() - 1 ==> #[trigger] pair_recorded(
                    g,
                    view@[i].0@,
                    view@[i].1@[k]@,
                    view@[i].1@[k + 1]@,
                ),
    {
        let ghost cs = chains_of(view@);
        let mut g = AirwayGraph::new();
        proof {
            assert(cs.take(0) =~= Seq::<(Seq<char>, Seq<WaypointV>)>::empty());
            lemma_built_from_empty(g);
        }
        let mut i: usize = 0;
        while i < view.len()
            invariant
                g.wf(),
                i <= view@.len(),
                cs == chains_of(view@),
                built_from(g, view_records(cs.take(i as int))),
                forall|ii: int, k: int|
                    0 <= ii < i && 0 <= k < view@[ii].1@.len() - 1 ==> #[trigger] pair_recorded(
                        g,
                        view@[ii].0@,
                        view@[ii].1@[k]@,
                        view@[ii].1@[k + 1]@,
                    ),
            decreases view@.len() - i,
        {
            let ghost gi = g;
            let ghost base = view_records(cs.take(i as int));
            let (name, waypoints) = (&view[i].0, &view[i].1);
            let ghost wv = waypoint_views(waypoints@);
            let awy = g.get_or_insert_airway_id(name.as_str());
            let ghost ga = g;
            proof {
                assert(ga.fix_names().take(gi.fix_count() as int) =~= gi.fix_names());
                assert(ga.fix_positions().take(gi.fix_count() as int) =~= gi.fix_positions());
                assert(ga.airway_names().take(gi.airway_names().len() as int) =~= gi.airway_names());
                lemma_first_index(ga.airway_names().len() as int, ga.airway_named(name@));
                assert forall|f: int, a: int| 0 <= f < ga.fix_count() implies #[trigger] ga.edges(f, a)
                    == record_edges(ga, base, f, a) by {
                    lemma_record_edges_stable(gi, ga, base, f, a);
                    assert(gi.edges(f, a) == record_edges(gi, base, f, a));
                }
                lemma_record_edges_stable(gi, ga, base, 0, 0);
                assert(built_from(ga, base));
                assert(chain_records(name@, Seq::<WaypointV>::empty()) =~= Seq::<SegmentRecord>::empty());
                if wv.len() > 0 {
                    assert(chain_records(name@, wv.take(1)) =~= Seq::<SegmentRecord>::empty());
                }
                assert(base + Seq::<SegmentRecord>::empty() =~= base);
            }
            let mut k: usize = 0;
            while waypoints.len() > 0 && k < waypoints.len() - 1
                invariant
                    i < view@.len(),
                    g.wf(),
                    grows(g, gi),
                    g.airway_names() == ga.airway_names(),
                    ga.airway_lookup(name@) == Some(awy.0 as int),
                    awy.0 < ga.airway_names().len(),
                    name@ == view@[i as int].0@,
                    waypoints@ == view@[i as int].1@,
                    wv == waypoint_views(waypoints@),
                    k <= waypoints@.len(),
                    waypoints@.len() > 0 ==> k < waypoints@.len(),
                    gi.wf(),
                    built_from(g, base + chain_records(
                        name@,
                        if k + 1 <= wv.len() {
                            wv.take(k + 1)
                        } else {
                            wv
                        },
                    )),
                    forall|kk: int|
                        0 <= kk < k && kk < waypoints@.len() - 1 ==> #[trigger] pair_recorded(
                            g,
                            name@,
                            waypoints@[kk]@,
                            waypoints@[kk + 1]@,
                        ),
                decreases waypoints@.len() - k,
            {
                let ghost gk = g;
                let ghost before = base + chain_records(name@, wv.take(k + 1));
                proof {
                    assert(g.airway_named(name@) =~= ga.airway_named(name@));
                }
                g.insert_view_segment(awy, &waypoints[k], &waypoints[k + 1], Ghost(name@));
                proof {
                    let gn = g;
                    assert(gn.airway_named(name@) =~= ga.airway_named(name@));
                    lemma_grows_trans(gn, gk, gi);
                    let rec = view_record(name@, waypoints@[k as int]@, waypoints@[k + 1]@);
                    lemma_built_step(gk, gn, before, rec);
                    let t2 = wv.take(k + 2);
                    assert(t2.drop_last() =~= wv.take(k + 1));
                    assert(t2[t2.len() - 2] == waypoints@[k as int]@);
                    assert(t2.last() == waypoints@[k + 1]@);
                    assert(before.push(rec) =~= base + chain_records(name@, t2));
                    assert forall|kk: int|
                        0 <= kk < k + 1 && kk < waypoints@.len() - 1 implies #[trigger] pair_recorded(
                        gn,
                        name@,
                        waypoints@[kk]@,
                        waypoints@[kk + 1]@,
                    ) by {
                        if kk < k {
                            lemma_pair_recorded_stable(gk, gn, name@, waypoints@[kk]@, waypoints@[kk + 1]@);
                        }
                    }
                }
                k = k + 1;
            }
            proof {
                if wv.len() > 0 {
                    assert(wv.take(wv.len() as int) =~= wv);
                }
                let ct = cs.take(i + 1);
                assert(ct.drop_last() =~= cs.take(i as int));
                assert(ct.last() == (name@, wv));
                assert forall|ii: int, kk: int|
                    0 <= ii < i + 1 && 0 <= kk < view@[ii].1@.len() - 1 implies #[trigger] pair_recorded(
                    g,
                    view@[ii].0@,
                    view@[ii].1@[kk]@,
                    view@[ii].1@[kk + 1]@,
                ) by {
                    if ii < i {
                        lemma_pair_recorded_stable(gi, g, view@[ii].0@, view@[ii].1@[kk]@, view@[ii].1@[kk + 1]@);
                    }
                }
            }
            i = i + 1;
        }
        proof {
            assert(cs.take(view@.len() as int) =~= cs);
        }
        g
    }
}

} // verus!
