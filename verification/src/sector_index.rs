//! An index over the volumes of the sectors that positions own: which volumes
//! contain a point, which lie near a line, and which sector holds a point at a
//! level.
//!
//! The index holds, for each sector with a position priority in the order given,
//! each of its volumes that has a lateral border, as the sector's id and the
//! volume. Whether a border contains a point is geo's `Contains` on the polygon
//! that the border bounds.
use vstd::prelude::*;

use geo::Contains;

use crate::lookup::{first_index, lemma_first_index};
use crate::sct_items::Point;
use crate::sct_text::lex_lt;
use crate::sectors::{bounded, sector_views, volume_views, SectorV, Sectors, Volume, VolumeId, VolumeV};
use crate::text::str_eq;

verus! {

/// Whether volume `k` has the id `id`.
pub open spec fn volume_named(volumes: Seq<VolumeV>, id: Seq<char>) -> spec_fn(int) -> bool {
    |k: int| volumes[k].id == id
}

/// The volumes of a sector that have a lateral border, each with the sector's id:
/// for each of the sector's volume ids, the first volume with that id.
pub open spec fn sector_entries(volumes: Seq<VolumeV>, id: Seq<char>, ids: Seq<Seq<char>>) -> Seq<
    (Seq<char>, VolumeV),
>
    decreases ids.len(),
{
    if ids.len() == 0 {
        seq![]
    } else {
        let r = sector_entries(volumes, id, ids.drop_last());
        match first_index(volumes.len() as int, volume_named(volumes, ids.last())) {
            Some(k) => if volumes[k].lateral_border.len() > 0 {
                r.push((id, volumes[k]))
            } else {
                r
            },
            None => r,
        }
    }
}

/// What the index holds: the entries of each sector with a position priority, in
/// order.
pub open spec fn index_entries(sectors: Seq<SectorV>, volumes: Seq<VolumeV>) -> Seq<
    (Seq<char>, VolumeV),
>
    decreases sectors.len(),
{
    if sectors.len() == 0 {
        seq![]
    } else {
        let r = index_entries(sectors.drop_last(), volumes);
        let s = sectors.last();
        if s.position_priority.len() > 0 {
            r + sector_entries(volumes, s.id, s.volumes)
        } else {
            r
        }
    }
}

/// What geo's `Contains` says of the polygon that `border` bounds and the point `p`.
pub uninterp spec fn border_contains_point(border: Seq<Point>, p: Point) -> bool;

/// Asks geo whether the polygon that `border` bounds (its exterior ring, closed by
/// geo, no holes, on `i128` coordinates) contains the point `p`, with
/// `Polygon::contains`: whether the point lies inside it, not on its boundary.
/// Claimed of geo: the answer depends on the border and the point alone. Within
/// the bound, geo's orientation tests on 128-bit integers do not overflow.
#[verifier::external_body]
fn border_contains(border: &Vec<Point>, p: Point) -> (r: bool)
    requires
        forall|i: int| 0 <= i < border@.len() ==> bounded(#[trigger] border@[i]),
        bounded(p),
    ensures
        r == border_contains_point(border@, p),
{
    let ring: geo::LineString<i128> = border.iter().map(|q| geo::Coord { x: q.0 as i128, y: q.1 as i128 }).collect();
    geo::Polygon::new(ring, vec![]).contains(&geo::Point::new(p.0 as i128, p.1 as i128))
}

/// Whether the bounding box of `border` meets the box with corners `lo` and `hi`
/// (edges included): some point of the border lies at or left of its right edge,
/// some at or right of its left edge, and likewise up and down.
pub open spec fn box_meets(border: Seq<Point>, lo: Point, hi: Point) -> bool {
    &&& exists|i: int| 0 <= i < border.len() && #[trigger] border[i].0 <= hi.0
    &&& exists|i: int| 0 <= i < border.len() && #[trigger] border[i].0 >= lo.0
    &&& exists|i: int| 0 <= i < border.len() && #[trigger] border[i].1 <= hi.1
    &&& exists|i: int| 0 <= i < border.len() && #[trigger] border[i].1 >= lo.1
}

/// The corners of the bounding box of a line from `a` to `b`.
pub open spec fn line_box(a: Point, b: Point) -> (Point, Point) {
    (
        (if a.0 <= b.0 { a.0 } else { b.0 }, if a.1 <= b.1 { a.1 } else { b.1 }),
        (if a.0 >= b.0 { a.0 } else { b.0 }, if a.1 >= b.1 { a.1 } else { b.1 }),
    )
}

/// Whether a volume lies within the bound on quantized coordinates.
pub open spec fn volume_bounded(v: VolumeV) -> bool {
    forall|i: int| 0 <= i < v.lateral_border.len() ==> bounded(#[trigger] v.lateral_border[i])
}

pub open spec fn entry_views(v: Seq<(String, Volume)>) -> Seq<(Seq<char>, VolumeV)> {
    v.map_values(|e: (String, Volume)| (e.0@, e.1@))
}

pub open spec fn entry_ref_views(v: Seq<&(String, Volume)>) -> Seq<(Seq<char>, VolumeV)> {
    v.map_values(|e: &(String, Volume)| (e.0@, e.1@))
}

/// `a` does not come after `b` when `b` does not come after `c`.
pub proof fn lemma_lex_lt_transitive(a: Seq<char>, b: Seq<char>, c: Seq<char>)
    requires
        lex_lt(a, b),
        lex_lt(b, c),
    ensures
        lex_lt(a, c),
    decreases a.len(),
{
    if a.len() > 0 && b.len() > 0 && c.len() > 0 && a[0] == b[0] && b[0] == c[0] {
        lemma_lex_lt_transitive(a.drop_first(), b.drop_first(), c.drop_first());
    }
}

/// Whether `a` and `b` are equal.
fn same_chars(a: &str, b: &str) -> (r: bool)
    ensures
        r == (a@ == b@),
{
    str_eq(a, b)
}

/// A copy of a volume.
fn copy_volume(v: &Volume) -> (r: Volume)
    ensures
        r@ == v@,
{
    let mut border: Vec<Point> = Vec::new();
    let mut i: usize = 0;
    while i < v.lateral_border.len()
        invariant
            i <= v.lateral_border@.len(),
            border@ == v.lateral_border@.take(i as int),
        decreases v.lateral_border@.len() - i,
    {
        border.push(v.lateral_border[i]);
        i = i + 1;
        proof {
            assert(border@ =~= v.lateral_border@.take(i as int));
        }
    }
    proof {
        assert(v.lateral_border@.take(v.lateral_border@.len() as int) =~= v.lateral_border@);
    }
    Volume {
        id: VolumeId(v.id.0.clone()),
        lower_level: v.lower_level,
        upper_level: v.upper_level,
        lateral_border: border,
    }
}

/// The first volume with id `id` (see [`volume_named`]).
fn first_volume(volumes: &Vec<Volume>, id: &str) -> (r: Option<usize>)
    ensures
        r matches Some(k) ==> first_index(volume_views(volumes@).len() as int, volume_named(volume_views(volumes@), id@)) == Some(k as int),
        r is None ==> first_index(volume_views(volumes@).len() as int, volume_named(volume_views(volumes@), id@)) is None,
{
    let ghost vv = volume_views(volumes@);
    let ghost p = volume_named(vv, id@);
    let mut k: usize = 0;
    while k < volumes.len()
        invariant
            k <= volumes@.len(),
            vv == volume_views(volumes@),
            p == volume_named(vv, id@),
            forall|j: int| 0 <= j < k ==> !#[trigger] p(j),
        decreases volumes@.len() - k,
    {
        if same_chars(volumes[k].id.0.as_str(), id) {
            proof {
                assert(p(k as int));
                lemma_first_index(vv.len() as int, p);
                crate::lookup::lemma_first_index_at(vv.len() as int, p, k as int);
            }
            return Some(k);
        }
        proof {
            assert(!p(k as int));
        }
        k = k + 1;
    }
    proof {
        lemma_first_index(vv.len() as int, p);
    }
    None
}

/// The index entries (see [`index_entries`]).
fn build_entries(sectors: &Sectors, volumes: &Vec<Volume>) -> (r: Vec<(String, Volume)>)
    ensures
        entry_views(r@) == index_entries(sector_views(sectors.0@), volume_views(volumes@)),
{
    let ghost sv = sector_views(sectors.0@);
    let ghost vv = volume_views(volumes@);
    let mut r: Vec<(String, Volume)> = Vec::new();
    let mut i: usize = 0;
    proof {
        assert(sv.take(0) =~= Seq::<SectorV>::empty());
        assert(entry_views(r@) =~= Seq::<(Seq<char>, VolumeV)>::empty());
    }
    while i < sectors.0.len()
        invariant
            i <= sectors.0@.len(),
            sv == sector_views(sectors.0@),
            vv == volume_views(volumes@),
            entry_views(r@) == index_entries(sv.take(i as int), vv),
        decreases sectors.0@.len() - i,
    {
        let s = &sectors.0[i];
        proof {
            assert(sv.take(i + 1).drop_last() =~= sv.take(i as int));
            assert(sv.take(i + 1).last() == s@);
        }
        if s.position_priority.len() > 0 {
            let ghost base = entry_views(r@);
            let ghost ids = s@.volumes;
            let mut j: usize = 0;
            proof {
                assert(ids.take(0) =~= Seq::<Seq<char>>::empty());
                assert(base + sector_entries(vv, s@.id, ids.take(0)) =~= base);
            }
            while j < s.volumes.len()
                invariant
                    j <= s.volumes@.len(),
                    vv == volume_views(volumes@),
                    ids == s@.volumes,
                    entry_views(r@) == base + sector_entries(vv, s@.id, ids.take(j as int)),
                decreases s.volumes@.len() - j,
            {
                let ghost t = ids.take(j + 1);
                let ghost vid = s.volumes@[j as int].0@;
                proof {
                    assert(t.drop_last() =~= ids.take(j as int));
                    assert(t.last() == vid);
                    assert(sector_entries(vv, s@.id, t) == {
                        let r0 = sector_entries(vv, s@.id, ids.take(j as int));
                        match first_index(vv.len() as int, volume_named(vv, vid)) {
                            Some(k) => if vv[k].lateral_border.len() > 0 {
                                r0.push((s@.id, vv[k]))
                            } else {
                                r0
                            },
                            None => r0,
                        }
                    });
                }
                let name = s.volumes[j].0.as_str();
                let fv = first_volume(volumes, name);
                proof {
                    assert(name@ == vid);
                    lemma_first_index(vv.len() as int, volume_named(vv, vid));
                }
                match fv {
                    Some(k) => {
                        proof {
                            lemma_first_index(vv.len() as int, volume_named(vv, s.volumes@[j as int].0@));
                        }
                        if volumes[k].lateral_border.len() > 0 {
                            let ghost before = entry_views(r@);
                            let e = (s.id.0.clone(), copy_volume(&volumes[k]));
                            r.push(e);
                            proof {
                                assert(vv[k as int] == volumes@[k as int]@);
                                assert(entry_views(r@) =~= before.push((s@.id, vv[k as int])));
                                assert(first_index(vv.len() as int, volume_named(vv, vid)) == Some(k as int));
                                assert(vv[k as int].lateral_border.len() > 0);
                                assert(s@.id == s.id.0@);
                                assert(sector_entries(vv, s@.id, t) == sector_entries(vv, s@.id, ids.take(j as int)).push((s@.id, vv[k as int])));
                                assert(entry_views(r@) =~= base + sector_entries(vv, s@.id, t));
                            }
                        } else {
                            proof {
                                assert(vv[k as int] == volumes@[k as int]@);
                            }
                        }
                    },
                    None => {},
                }
                j = j + 1;
            }
            proof {
                assert(ids.take(s.volumes@.len() as int) =~= ids);
            }
        }
        i = i + 1;
    }
    proof {
        assert(sv.take(sectors.0@.len() as int) =~= sv);
    }
    r
}

/// The entries whose volume contains `p` and whose levels hold `level_ft` (the
/// lower one included, the upper one not).
pub open spec fn candidates(entries: Seq<(Seq<char>, VolumeV)>, p: Point, level_ft: i64) -> Seq<
    (Seq<char>, VolumeV),
> {
    entries.filter(
        |e: (Seq<char>, VolumeV)| border_contains_point(e.1.lateral_border, p)
            && e.1.lower_level <= level_ft && level_ft < e.1.upper_level,
    )
}

/// The sector id among entries that comes first (see [`lex_lt`]); of equal ids the
/// earliest entry's.
pub open spec fn least_id(es: Seq<(Seq<char>, VolumeV)>) -> Option<Seq<char>>
    decreases es.len(),
{
    if es.len() == 0 {
        None
    } else {
        match least_id(es.drop_last()) {
            None => Some(es.last().0),
            Some(b) => if lex_lt(es.last().0, b) {
                Some(es.last().0)
            } else {
                Some(b)
            },
        }
    }
}

/// The sector that entries say holds `p` at `level_ft`.
pub open spec fn sector_at(entries: Seq<(Seq<char>, VolumeV)>, p: Point, level_ft: i64) -> Option<
    Seq<char>,
> {
    least_id(candidates(entries, p, level_ft))
}

/// An index over the volumes of the sectors that positions own (see the module's
/// documentation).
#[derive(Debug)]
pub struct SectorVolumeIndex {
    entries: Vec<(String, Volume)>,
}

impl SectorVolumeIndex {
    /// The entries of the index: sector ids with volumes.
    pub closed spec fn entries(&self) -> Seq<(Seq<char>, VolumeV)> {
        entry_views(self.entries@)
    }

    /// The index over the given sectors and volumes.
    pub fn new(sectors: &Sectors, volumes: &Vec<Volume>) -> (r: Self)
        ensures
            r.entries() == index_entries(sector_views(sectors.0@), volume_views(volumes@)),
    {
        SectorVolumeIndex { entries: build_entries(sectors, volumes) }
    }

    /// Builds the index anew over the given sectors and volumes.
    pub fn rebuild(&mut self, sectors: &Sectors, volumes: &Vec<Volume>)
        ensures
            final(self).entries() == index_entries(sector_views(sectors.0@), volume_views(volumes@)),
    {
        self.entries = build_entries(sectors, volumes);
    }

    /// The entries whose volume contains `p` (see [`border_contains_point`]), in
    /// the index's order; whatever their levels.
    pub fn volumes_at(&self, p: Point) -> (r: Vec<&(String, Volume)>)
        requires
            bounded(p),
            forall|i: int| 0 <= i < self.entries().len() ==> volume_bounded(#[trigger] self.entries()[i].1),
        ensures
            entry_ref_views(r@) == self.entries().filter(
                |e: (Seq<char>, VolumeV)| border_contains_point(e.1.lateral_border, p),
            ),
    {
        let ghost es = self.entries();
        let ghost f = |e: (Seq<char>, VolumeV)| border_contains_point(e.1.lateral_border, p);
        let mut r: Vec<&(String, Volume)> = Vec::new();
        let mut i: usize = 0;
        proof {
            assert(es.take(0) =~= Seq::<(Seq<char>, VolumeV)>::empty());
            assert(entry_ref_views(r@) =~= Seq::<(Seq<char>, VolumeV)>::empty());
        }
        while i < self.entries.len()
            invariant
                i <= self.entries@.len(),
                es == self.entries(),
                es == entry_views(self.entries@),
                bounded(p),
                forall|k: int| 0 <= k < es.len() ==> volume_bounded(#[trigger] es[k].1),
                f == (|e: (Seq<char>, VolumeV)| border_contains_point(e.1.lateral_border, p)),
                entry_ref_views(r@) == es.take(i as int).filter(f),
            decreases self.entries@.len() - i,
        {
            let e = &self.entries[i];
            proof {
                es.take(i as int).lemma_filter_push(es[i as int], f);
                assert(es.take(i as int).push(es[i as int]) =~= es.take(i + 1));
                assert(es[i as int] == (e.0@, e.1@));
                assert(volume_bounded(es[i as int].1));
            }
            if border_contains(&e.1.lateral_border, p) {
                let ghost before = entry_ref_views(r@);
                r.push(e);
                proof {
                    assert(entry_ref_views(r@) =~= before.push(es[i as int]));
                }
            }
            i = i + 1;
        }
        proof {
            assert(es.take(self.entries@.len() as int) =~= es);
        }
        r
    }

    /// The entries whose volume's bounding box meets that of the line from `a` to
    /// `b` (see [`box_meets`]), in the index's order: the candidates for a closer
    /// test.
    pub fn volumes_near_line(&self, a: Point, b: Point) -> (r: Vec<&(String, Volume)>)
        ensures
            entry_ref_views(r@) == self.entries().filter(
                |e: (Seq<char>, VolumeV)| box_meets(e.1.lateral_border, line_box(a, b).0, line_box(a, b).1),
            ),
    {
        let ghost es = self.entries();
        let lo = (if a.0 <= b.0 { a.0 } else { b.0 }, if a.1 <= b.1 { a.1 } else { b.1 });
        let hi = (if a.0 >= b.0 { a.0 } else { b.0 }, if a.1 >= b.1 { a.1 } else { b.1 });
        let ghost f = |e: (Seq<char>, VolumeV)| box_meets(e.1.lateral_border, line_box(a, b).0, line_box(a, b).1);
        let mut r: Vec<&(String, Volume)> = Vec::new();
        let mut i: usize = 0;
        proof {
            assert(es.take(0) =~= Seq::<(Seq<char>, VolumeV)>::empty());
            assert(entry_ref_views(r@) =~= Seq::<(Seq<char>, VolumeV)>::empty());
        }
        while i < self.entries.len()
            invariant
                i <= self.entries@.len(),
                es == self.entries(),
                es == entry_views(self.entries@),
                (lo, hi) == line_box(a, b),
                f == (|e: (Seq<char>, VolumeV)| box_meets(e.1.lateral_border, line_box(a, b).0, line_box(a, b).1)),
                entry_ref_views(r@) == es.take(i as int).filter(f),
            decreases self.entries@.len() - i,
        {
            let e = &self.entries[i];
            proof {
                es.take(i as int).lemma_filter_push(es[i as int], f);
                assert(es.take(i as int).push(es[i as int]) =~= es.take(i + 1));
                assert(es[i as int] == (e.0@, e.1@));
            }
            if meets_box(&e.1.lateral_border, lo, hi) {
                let ghost before = entry_ref_views(r@);
                r.push(e);
                proof {
                    assert(entry_ref_views(r@) =~= before.push(es[i as int]));
                }
            }
            i = i + 1;
        }
        proof {
            assert(es.take(self.entries@.len() as int) =~= es);
        }
        r
    }

    /// The sector that holds `p` at `level_ft` (whole feet): among the entries
    /// whose volume contains `p` and whose levels hold the level (the lower one
    /// included, the upper one not), the sector id that comes first (see
    /// [`lex_lt`]); none where there is no such entry.
    pub fn find_sector(&self, p: Point, level_ft: i64) -> (r: Option<String>)
        requires
            bounded(p),
            forall|i: int| 0 <= i < self.entries().len() ==> volume_bounded(#[trigger] self.entries()[i].1),
        ensures
            ({
                let cands = self.entries().filter(
                    |e: (Seq<char>, VolumeV)| border_contains_point(e.1.lateral_border, p)
                        && e.1.lower_level <= level_ft && level_ft < e.1.upper_level,
                );
                match r {
                    Some(id) => (exists|k: int| 0 <= k < cands.len() && #[trigger] cands[k].0 == id@)
                        && forall|k: int| 0 <= k < cands.len() ==> !lex_lt(#[trigger] cands[k].0, id@),
                    None => cands.len() == 0,
                }
            }),
            match r {
                Some(id) => sector_at(self.entries(), p, level_ft) == Some(id@),
                None => sector_at(self.entries(), p, level_ft) is None,
            },
    {
        let at = self.volumes_at(p);
        let ghost es = self.entries();
        let ghost f = |e: (Seq<char>, VolumeV)| border_contains_point(e.1.lateral_border, p);
        let ghost g = |e: (Seq<char>, VolumeV)| e.1.lower_level <= level_ft && level_ft < e.1.upper_level;
        let ghost fg = |e: (Seq<char>, VolumeV)| border_contains_point(e.1.lateral_border, p)
            && e.1.lower_level <= level_ft && level_ft < e.1.upper_level;
        let ghost av = entry_ref_views(at@);
        proof {
            lemma_filter_and(es, f, g, fg);
        }
        let mut best: Option<&String> = None;
        let mut i: usize = 0;
        let ghost mut cands: Seq<(Seq<char>, VolumeV)> = seq![];
        proof {
            assert(av.take(0) =~= Seq::<(Seq<char>, VolumeV)>::empty());
        }
        while i < at.len()
            invariant
                i <= at@.len(),
                av == entry_ref_views(at@),
                g == (|e: (Seq<char>, VolumeV)| e.1.lower_level <= level_ft && level_ft < e.1.upper_level),
                cands == av.take(i as int).filter(g),
                match best {
                    Some(id) => (exists|k: int| 0 <= k < cands.len() && #[trigger] cands[k].0 == id@)
                        && forall|k: int| 0 <= k < cands.len() ==> !lex_lt(#[trigger] cands[k].0, id@),
                    None => cands.len() == 0,
                },
                match best {
                    Some(id) => least_id(cands) == Some(id@),
                    None => least_id(cands) is None,
                },
            decreases at@.len() - i,
        {
            let e = at[i];
            let ghost ev = (e.0@, e.1@);
            proof {
                av.take(i as int).lemma_filter_push(av[i as int], g);
                assert(av.take(i as int).push(av[i as int]) =~= av.take(i + 1));
                assert(av[i as int] == ev);
            }
            if e.1.lower_level as i64 <= level_ft && level_ft < e.1.upper_level as i64 {
                let ghost old_cands = cands;
                proof {
                    cands = cands.push(ev);
                    assert(cands[cands.len() - 1] == ev);
                    assert(cands.drop_last() =~= old_cands);
                }
                match best {
                    None => {
                        proof {
                            assert(old_cands.len() == 0);
                            assert(cands[0].0 == e.0@);
                            lemma_lex_lt_irreflexive(e.0@);
                        }
                        best = Some(&e.0);
                    },
                    Some(b) => {
                        let ec: Vec<char> = crate::text::chars_of(e.0.as_str());
                        let bc: Vec<char> = crate::text::chars_of(b.as_str());
                        if crate::sct_text::lex_less(ec.as_slice(), bc.as_slice()) {
                            proof {
                                assert forall|k: int| 0 <= k < cands.len() implies !lex_lt(
                                    #[trigger] cands[k].0,
                                    e.0@,
                                ) by {
                                    if k < old_cands.len() {
                                        assert(old_cands[k] == cands[k]);
                                        if lex_lt(cands[k].0, e.0@) {
                                            lemma_lex_lt_transitive(cands[k].0, e.0@, b@);
                                        }
                                    } else {
                                        lemma_lex_lt_irreflexive(e.0@);
                                    }
                                }
                                assert(cands[cands.len() - 1].0 == e.0@);
                            }
                            best = Some(&e.0);
                        } else {
                            proof {
                                let k0 = choose|k: int| 0 <= k < old_cands.len() && #[trigger] old_cands[k].0 == b@;
                                assert(cands[k0] == old_cands[k0]);
                                assert forall|k: int| 0 <= k < cands.len() implies !lex_lt(
                                    #[trigger] cands[k].0,
                                    b@,
                                ) by {
                                    if k < old_cands.len() {
                                        assert(old_cands[k] == cands[k]);
                                    }
                                }
                            }
                        }
                    },
                }
            }
            i = i + 1;
        }
        proof {
            assert(av.take(at@.len() as int) =~= av);
        }
        match best {
            Some(b) => Some(b.clone()),
            None => None,
        }
    }
}

/// What an index answers depends on what it was built from alone: two indexes
/// built from the same sectors and volumes place a point at a level in the same
/// sector (see [`SectorVolumeIndex::new`], [`SectorVolumeIndex::rebuild`] and
/// [`SectorVolumeIndex::find_sector`]).
pub proof fn lemma_same_build_same_sector(
    i1: &SectorVolumeIndex,
    i2: &SectorVolumeIndex,
    sectors: Seq<SectorV>,
    volumes: Seq<VolumeV>,
    p: Point,
    level_ft: i64,
)
    requires
        i1.entries() == index_entries(sectors, volumes),
        i2.entries() == index_entries(sectors, volumes),
    ensures
        sector_at(i1.entries(), p, level_ft) == sector_at(i2.entries(), p, level_ft),
{
}

/// The sector id that [`least_id`] picks is one of the entries' and no entry's id
/// comes before it.
pub proof fn lemma_least_id(es: Seq<(Seq<char>, VolumeV)>)
    ensures
        match least_id(es) {
            Some(id) => (exists|k: int| 0 <= k < es.len() && #[trigger] es[k].0 == id)
                && forall|k: int| 0 <= k < es.len() ==> !lex_lt(#[trigger] es[k].0, id),
            None => es.len() == 0,
        },
    decreases es.len(),
{
    if es.len() > 0 {
        let d = es.drop_last();
        lemma_least_id(d);
        let l = es.last().0;
        assert(es[es.len() - 1].0 == l);
        lemma_lex_lt_irreflexive(l);
        match least_id(d) {
            None => {},
            Some(b) => {
                let kb = choose|k: int| 0 <= k < d.len() && #[trigger] d[k].0 == b;
                assert(es[kb] == d[kb]);
                if lex_lt(l, b) {
                    assert forall|k: int| 0 <= k < es.len() implies !lex_lt(#[trigger] es[k].0, l) by {
                        if k < d.len() {
                            assert(es[k] == d[k]);
                            if lex_lt(es[k].0, l) {
                                lemma_lex_lt_transitive(es[k].0, l, b);
                            }
                        }
                    }
                } else {
                    assert forall|k: int| 0 <= k < es.len() implies !lex_lt(#[trigger] es[k].0, b) by {
                        if k < d.len() {
                            assert(es[k] == d[k]);
                        }
                    }
                }
            },
        }
    }
}

/// Nothing comes before itself.
proof fn lemma_lex_lt_irreflexive(a: Seq<char>)
    ensures
        !lex_lt(a, a),
    decreases a.len(),
{
    if a.len() > 0 {
        lemma_lex_lt_irreflexive(a.drop_first());
    }
}

/// Filtering by one condition, then another, filters by both.
proof fn lemma_filter_and<A>(s: Seq<A>, f: spec_fn(A) -> bool, g: spec_fn(A) -> bool, fg: spec_fn(A) -> bool)
    requires
        forall|x: A| #[trigger] fg(x) == (f(x) && g(x)),
    ensures
        s.filter(f).filter(g) == s.filter(fg),
    decreases s.len(),
{
    if s.len() > 0 {
        let d = s.drop_last();
        lemma_filter_and(d, f, g, fg);
        assert(s =~= d.push(s.last()));
        d.lemma_filter_push(s.last(), f);
        d.lemma_filter_push(s.last(), fg);
        d.filter(f).lemma_filter_push(s.last(), g);
    }
}

/// Whether the bounding box of `border` meets the box from `lo` to `hi` (see
/// [`box_meets`]).
fn meets_box(border: &Vec<Point>, lo: Point, hi: Point) -> (r: bool)
    ensures
        r == box_meets(border@, lo, hi),
{
    let mut left = false;
    let mut right = false;
    let mut down = false;
    let mut up = false;
    let mut i: usize = 0;
    while i < border.len()
        invariant
            i <= border@.len(),
            left == exists|k: int| 0 <= k < i && #[trigger] border@[k].0 <= hi.0,
            right == exists|k: int| 0 <= k < i && #[trigger] border@[k].0 >= lo.0,
            down == exists|k: int| 0 <= k < i && #[trigger] border@[k].1 <= hi.1,
            up == exists|k: int| 0 <= k < i && #[trigger] border@[k].1 >= lo.1,
        decreases border@.len() - i,
    {
        let q = border[i];
        proof {
            assert(q == border@[i as int]);
        }
        left = left || q.0 <= hi.0;
        right = right || q.0 >= lo.0;
        down = down || q.1 <= hi.1;
        up = up || q.1 >= lo.1;
        i = i + 1;
    }
    left && right && down && up
}

} // verus!
