//! Coordination agreements between sectors, as the ESE file's `COPX` and
//! `FIR_COPX` lines state them.
//!
//! A line is `COPX:` or `FIR_COPX:` followed by ten fields separated by colons:
//! previous fix, departure runway, fix, subsequent fix, arrival runway, exit sector,
//! entry sector, climb level, descent level, description. A `*` leaves a fix,
//! runway or level unset; a level is otherwise a whole number of feet.
use vstd::prelude::*;

use crate::text::{chars_are, chars_of, chars_start_with, copy_range, split_chars, split_spec,
    starts_with, string_from_chars, unsigned_parse_spec, views};

verus! {

/// A coordination agreement: the level at which traffic passes from one sector to
/// the next, for the traffic that the fixes and runways select.
#[derive(Debug)]
pub struct Agreement {
    pub previous_fix: Option<String>,
    pub departure_runway: Option<String>,
    pub subsequent_fix: Option<String>,
    pub arrival_runway: Option<String>,
    pub fix: Option<String>,
    pub exit_sector: String,
    pub entry_sector: String,
    pub climb_level: Option<u32>,
    pub descent_level: Option<u32>,
    pub description: String,
}

/// An agreement, its texts as character sequences.
pub struct AgreementV {
    pub previous_fix: Option<Seq<char>>,
    pub departure_runway: Option<Seq<char>>,
    pub subsequent_fix: Option<Seq<char>>,
    pub arrival_runway: Option<Seq<char>>,
    pub fix: Option<Seq<char>>,
    pub exit_sector: Seq<char>,
    pub entry_sector: Seq<char>,
    pub climb_level: Option<u32>,
    pub descent_level: Option<u32>,
    pub description: Seq<char>,
}

pub open spec fn opt_view(o: Option<String>) -> Option<Seq<char>> {
    match o {
        Some(s) => Some(s@),
        None => None,
    }
}

impl View for Agreement {
    type V = AgreementV;

    open spec fn view(&self) -> AgreementV {
        AgreementV {
            previous_fix: opt_view(self.previous_fix),
            departure_runway: opt_view(self.departure_runway),
            subsequent_fix: opt_view(self.subsequent_fix),
            arrival_runway: opt_view(self.arrival_runway),
            fix: opt_view(self.fix),
            exit_sector: self.exit_sector@,
            entry_sector: self.entry_sector@,
            climb_level: self.climb_level,
            descent_level: self.descent_level,
            description: self.description@,
        }
    }
}

/// A field that `*` leaves unset.
pub open spec fn wildcard_text(f: Seq<char>) -> Option<Seq<char>> {
    if f == "*"@ {
        None
    } else {
        Some(f)
    }
}

/// A level field: unset for `*`, else a whole number (none when it is neither).
pub open spec fn wildcard_level(f: Seq<char>) -> Option<Option<u32>> {
    if f == "*"@ {
        Some(None)
    } else {
        match unsigned_parse_spec(f, 10, 0xffff_ffff) {
            Some(n) => Some(Some(n as u32)),
            None => None,
        }
    }
}

/// The fields of an agreement line after its `COPX:` or `FIR_COPX:` keyword.
pub open spec fn copx_fields(line: Seq<char>) -> Option<Seq<char>> {
    if starts_with(line, "COPX:"@) {
        Some(line.skip(5))
    } else if starts_with(line, "FIR_COPX:"@) {
        Some(line.skip(9))
    } else {
        None
    }
}

/// The agreement that a `COPX` or `FIR_COPX` line states.
pub open spec fn agreement_of(line: Seq<char>) -> Option<AgreementV> {
    match copx_fields(line) {
        None => None,
        Some(rest) => {
            let f = split_spec(rest, ':');
            if f.len() != 10 {
                None
            } else {
                match (wildcard_level(f[7]), wildcard_level(f[8])) {
                    (Some(climb), Some(descent)) => Some(
                        AgreementV {
                            previous_fix: wildcard_text(f[0]),
                            departure_runway: wildcard_text(f[1]),
                            fix: wildcard_text(f[2]),
                            subsequent_fix: wildcard_text(f[3]),
                            arrival_runway: wildcard_text(f[4]),
                            exit_sector: f[5],
                            entry_sector: f[6],
                            climb_level: climb,
                            descent_level: descent,
                            description: f[9],
                        },
                    ),
                    _ => None,
                }
            }
        },
    }
}

/// Reads a field that `*` leaves unset.
fn parse_wildcard_text(f: &[char]) -> (r: Option<String>)
    ensures
        opt_view(r) == wildcard_text(f@),
{
    if chars_are(f, "*") {
        None
    } else {
        Some(string_from_chars(f))
    }
}

/// Reads a level field (see [`wildcard_level`]).
fn parse_wildcard_level(f: &[char]) -> (r: Option<Option<u32>>)
    ensures
        r == wildcard_level(f@),
{
    if chars_are(f, "*") {
        Some(None)
    } else {
        proof {
            crate::text::lemma_unsigned_text_value_nonneg(f@, 10);
        }
        match crate::text::parse_unsigned(f, 10, 0xffff_ffff) {
            Some(n) => Some(Some(n as u32)),
            None => None,
        }
    }
}

impl Agreement {
    /// Reads a `COPX` or `FIR_COPX` line (see the module's documentation); none for
    /// any other line, a line without ten fields, or a level that is no number.
    pub fn parse(line: &str) -> (r: Option<Agreement>)
        ensures
            match agreement_of(line@) {
                Some(a) => r matches Some(x) && x@ == a,
                None => r is None,
            },
    {
        let l = chars_of(line);
        let rest = if chars_start_with(&l, "COPX:") {
            proof {
                reveal_strlit("COPX:");
            }
            let rest = copy_range(&l, 5, l.len());
            proof {
                assert(rest@ =~= l@.skip(5));
            }
            rest
        } else if chars_start_with(&l, "FIR_COPX:") {
            proof {
                reveal_strlit("FIR_COPX:");
            }
            let rest = copy_range(&l, 9, l.len());
            proof {
                assert(rest@ =~= l@.skip(9));
            }
            rest
        } else {
            return None;
        };
        let f = split_chars(&rest, ':');
        let ghost fs = split_spec(rest@, ':');
        if f.len() != 10 {
            return None;
        }
        proof {
            assert(forall|i: int| 0 <= i < 10 ==> #[trigger] f@[i]@ == fs[i]) by {
                assert(views(f@) == fs);
                assert forall|i: int| 0 <= i < 10 implies #[trigger] f@[i]@ == fs[i] by {
                    assert(views(f@)[i] == f@[i]@);
                }
            }
        }
        let climb = match parse_wildcard_level(&f[7]) {
            None => {
                return None;
            },
            Some(c) => c,
        };
        let descent = match parse_wildcard_level(&f[8]) {
            None => {
                return None;
            },
            Some(d) => d,
        };
        Some(
            Agreement {
                previous_fix: parse_wildcard_text(&f[0]),
                departure_runway: parse_wildcard_text(&f[1]),
                fix: parse_wildcard_text(&f[2]),
                subsequent_fix: parse_wildcard_text(&f[3]),
                arrival_runway: parse_wildcard_text(&f[4]),
                exit_sector: string_from_chars(&f[5]),
                entry_sector: string_from_chars(&f[6]),
                climb_level: climb,
                descent_level: descent,
                description: string_from_chars(&f[9]),
            },
        )
    }
}

pub fn copy_opt(o: &Option<String>) -> (r: Option<String>)
    ensures
        opt_view(r) == opt_view(*o),
{
    match o {
        Some(s) => Some(s.clone()),
        None => None,
    }
}

impl Agreement {
    /// A copy of the agreement.
    pub fn copy(&self) -> (r: Agreement)
        ensures
            r@ == self@,
    {
        Agreement {
            previous_fix: copy_opt(&self.previous_fix),
            departure_runway: copy_opt(&self.departure_runway),
            subsequent_fix: copy_opt(&self.subsequent_fix),
            arrival_runway: copy_opt(&self.arrival_runway),
            fix: copy_opt(&self.fix),
            exit_sector: self.exit_sector.clone(),
            entry_sector: self.entry_sector.clone(),
            climb_level: self.climb_level,
            descent_level: self.descent_level,
            description: self.description.clone(),
        }
    }
}

pub open spec fn agreement_views(v: Seq<Agreement>) -> Seq<AgreementV> {
    v.map_values(|a: Agreement| a@)
}

/// Agreements with a climb level.
pub open spec fn climbing(a: AgreementV) -> bool {
    a.climb_level is Some
}

/// Agreements with a descent level but no climb level.
pub open spec fn descending_only(a: AgreementV) -> bool {
    a.climb_level is None && a.descent_level is Some
}

/// Agreements with a level of either kind.
pub open spec fn with_level(a: AgreementV) -> bool {
    a.climb_level is Some || a.descent_level is Some
}

/// The agreements that state a level, in their order, split into those with a climb
/// level and the others (which state a descent level); agreements without any level
/// are left out.
pub fn extract_agreements(agreements: &Vec<Agreement>) -> (r: (Vec<Agreement>, Vec<Agreement>))
    ensures
        agreement_views(r.0@) == agreement_views(agreements@).filter(|a: AgreementV| climbing(a)),
        agreement_views(r.1@) == agreement_views(agreements@).filter(
            |a: AgreementV| descending_only(a),
        ),
{
    let ghost all = agreement_views(agreements@);
    let ghost pc = |a: AgreementV| climbing(a);
    let ghost pd = |a: AgreementV| descending_only(a);
    let mut climb: Vec<Agreement> = Vec::new();
    let mut descent: Vec<Agreement> = Vec::new();
    let mut i: usize = 0;
    while i < agreements.len()
        invariant
            i <= agreements@.len(),
            all == agreement_views(agreements@),
            pc == (|a: AgreementV| climbing(a)),
            pd == (|a: AgreementV| descending_only(a)),
            agreement_views(climb@) == all.take(i as int).filter(pc),
            agreement_views(descent@) == all.take(i as int).filter(pd),
        decreases agreements@.len() - i,
    {
        let a = &agreements[i];
        proof {
            assert(all.take(i + 1) =~= all.take(i as int).push(all[i as int]));
            all.take(i as int).lemma_filter_push(all[i as int], pc);
            all.take(i as int).lemma_filter_push(all[i as int], pd);
            assert(all[i as int] == a@);
        }
        if a.climb_level.is_some() {
            let ghost before = agreement_views(climb@);
            let c = a.copy();
            climb.push(c);
            proof {
                assert(agreement_views(climb@) =~= before.push(a@));
            }
        } else if a.descent_level.is_some() {
            let ghost before = agreement_views(descent@);
            let c = a.copy();
            descent.push(c);
            proof {
                assert(agreement_views(descent@) =~= before.push(a@));
            }
        }
        i = i + 1;
    }
    proof {
        assert(all.take(agreements@.len() as int) =~= all);
    }
    (climb, descent)
}

/// The two lists of [`extract_agreements`] hold, between them, each agreement with a
/// level once: as many as there are such agreements.
pub proof fn lemma_agreements_split(all: Seq<AgreementV>)
    ensures
        all.filter(|a: AgreementV| climbing(a)).len() + all.filter(
            |a: AgreementV| descending_only(a),
        ).len() == all.filter(|a: AgreementV| with_level(a)).len(),
    decreases all.len(),
{
    let pc = |a: AgreementV| climbing(a);
    let pd = |a: AgreementV| descending_only(a);
    let pl = |a: AgreementV| with_level(a);
    if all.len() == 0 {
        assert(all.filter(pc) =~= Seq::<AgreementV>::empty());
        assert(all.filter(pd) =~= Seq::<AgreementV>::empty());
        assert(all.filter(pl) =~= Seq::<AgreementV>::empty());
    } else {
        let init = all.drop_last();
        lemma_agreements_split(init);
        assert(init.push(all.last()) =~= all);
        init.lemma_filter_push(all.last(), pc);
        init.lemma_filter_push(all.last(), pd);
        init.lemma_filter_push(all.last(), pl);
    }
}

} // verus!
