//! Parsing of `/proc`-style nested key/value tables.
//!
//! The input is line-oriented: sections come as consecutive line pairs, a
//! heading row and a values row, both starting with the section name followed
//! by a colon, with the remaining columns separated by spaces. A heading
//! column is paired with the value at the same position; a value that is not
//! a decimal number (or does not fit in 64 bits) drops that column, while a
//! malformed shape (an unpaired line, a missing colon, mismatched section
//! names) rejects the whole input.

use vstd::prelude::*;
use vstd::slice::{slice_subrange, slice_to_vec};

use crate::error::AgentError;

verus! {

/// Line feed.
pub const NL: u8 = 10;

/// Space, the column separator.
pub const SP: u8 = 32;

/// Colon, ending the section name on both rows.
pub const COLON: u8 = 58;

/// Splitting a byte sequence at `sep`: the segments between separators, in
/// order. A trailing separator does not produce a trailing empty segment,
/// matching the usual reading of line-oriented text.
pub open spec fn spec_split(s: Seq<u8>, sep: u8) -> Seq<Seq<u8>>
    decreases s.len(),
{
    if s.len() == 0 {
        Seq::empty()
    } else if s[0] == sep {
        seq![Seq::<u8>::empty()] + spec_split(s.skip(1), sep)
    } else {
        let rest = spec_split(s.skip(1), sep);
        if rest.len() == 0 {
            seq![s]
        } else {
            seq![seq![s[0]] + rest[0]] + rest.skip(1)
        }
    }
}

/// The tokens of a row: the nonempty space-separated segments.
pub open spec fn spec_tokens(s: Seq<u8>) -> Seq<Seq<u8>> {
    spec_split(s, SP).filter(|t: Seq<u8>| t.len() > 0)
}

pub open spec fn is_digit(b: u8) -> bool {
    48 <= b <= 57
}

pub open spec fn all_digits(s: Seq<u8>) -> bool {
    forall|i: int| 0 <= i < s.len() ==> is_digit(#[trigger] s[i])
}

/// The value of a digit string read in base ten.
pub open spec fn dec_val(s: Seq<u8>) -> int
    decreases s.len(),
{
    if s.len() == 0 {
        0
    } else {
        dec_val(s.drop_last()) * 10 + (s.last() - 48)
    }
}

/// A decimal token's value: defined only for a nonempty all-digit token
/// whose value fits in 64 bits.
pub open spec fn spec_dec(s: Seq<u8>) -> Option<u64> {
    if s.len() > 0 && all_digits(s) && dec_val(s) <= u64::MAX {
        Some(dec_val(s) as u64)
    } else {
        None
    }
}

/// A section's model: its name and its `(column name, value)` pairs in
/// column order.
pub open spec fn spec_columns(names: Seq<Seq<u8>>, vals: Seq<Seq<u8>>) -> Seq<(Seq<u8>, u64)>
    decreases names.len(),
{
    if names.len() == 0 || vals.len() == 0 {
        Seq::empty()
    } else {
        let rest = spec_columns(names.skip(1), vals.skip(1));
        match spec_dec(vals[0]) {
            Some(v) => seq![(names[0], v)] + rest,
            None => rest,
        }
    }
}

/// One section from its heading row and values row: both rows must open with
/// the same nonempty name followed by a colon; the remaining columns are
/// paired positionally.
pub open spec fn spec_section(hdr: Seq<u8>, val: Seq<u8>) -> Option<(Seq<u8>, Seq<(Seq<u8>, u64)>)> {
    let hts = spec_tokens(hdr);
    let vts = spec_tokens(val);
    if hts.len() == 0 || vts.len() == 0 {
        None
    } else {
        let h0 = hts[0];
        if h0.len() < 2 || h0.last() != COLON || vts[0] != h0 {
            None
        } else {
            Some((h0.drop_last(), spec_columns(hts.skip(1), vts.skip(1))))
        }
    }
}

/// The sections of a whole input, pairing consecutive lines; an unpaired
/// trailing line or a malformed pair rejects the input.
pub open spec fn spec_sections(lines: Seq<Seq<u8>>) -> Option<Seq<(Seq<u8>, Seq<(Seq<u8>, u64)>)>>
    decreases lines.len(),
{
    if lines.len() == 0 {
        Some(Seq::empty())
    } else if lines.len() == 1 {
        None
    } else {
        match (spec_section(lines[0], lines[1]), spec_sections(lines.skip(2))) {
            (Some(sec), Some(rest)) => Some(seq![sec] + rest),
            _ => None,
        }
    }
}

/// What parsing a whole input yields.
pub open spec fn spec_parse(s: Seq<u8>) -> Option<Seq<(Seq<u8>, Seq<(Seq<u8>, u64)>)>> {
    spec_sections(spec_split(s, NL))
}

/// Looking a column up among a section's pairs; a repeated column name keeps
/// the later pair, as a rewritten entry would.
pub open spec fn spec_col_lookup(cols: Seq<(Seq<u8>, u64)>, inner: Seq<u8>) -> Option<u64>
    decreases cols.len(),
{
    if cols.len() == 0 {
        None
    } else if cols.last().0 == inner {
        Some(cols.last().1)
    } else {
        spec_col_lookup(cols.drop_last(), inner)
    }
}

/// Looking a value up by section name and column name; a repeated section
/// name keeps the later section wholesale.
pub open spec fn spec_lookup(
    secs: Seq<(Seq<u8>, Seq<(Seq<u8>, u64)>)>,
    outer: Seq<u8>,
    inner: Seq<u8>,
) -> Option<u64>
    decreases secs.len(),
{
    if secs.len() == 0 {
        None
    } else if secs.last().0 == outer {
        spec_col_lookup(secs.last().1, inner)
    } else {
        spec_lookup(secs.drop_last(), outer, inner)
    }
}

/// One parsed section.
#[derive(Debug)]
pub struct Section {
    pub name: Vec<u8>,
    pub columns: Vec<(Vec<u8>, u64)>,
}

pub open spec fn section_model(s: Section) -> (Seq<u8>, Seq<(Seq<u8>, u64)>) {
    (s.name@, s.columns@.map_values(|c: (Vec<u8>, u64)| (c.0@, c.1)))
}

pub open spec fn sections_model(v: Seq<Section>) -> Seq<(Seq<u8>, Seq<(Seq<u8>, u64)>)> {
    v.map_values(|s: Section| section_model(s))
}

proof fn lemma_map_index<A, B>(s: Seq<A>, f: spec_fn(A) -> B, i: int)
    requires
        0 <= i < s.len(),
    ensures
        s.map_values(f)[i] == f(s[i]),
{
}

proof fn lemma_map_push<A, B>(s: Seq<A>, f: spec_fn(A) -> B, x: A)
    ensures
        s.push(x).map_values(f) =~= s.map_values(f).push(f(x)),
{
    assert forall|k: int| 0 <= k < s.len() + 1 implies s.push(x).map_values(f)[k] == s.map_values(
        f,
    ).push(f(x))[k] by {
        if k < s.len() {
            assert(s.push(x)[k] == s[k]);
        } else {
            assert(s.push(x)[k] == x);
        }
    }
}

/// Byte-for-byte equality of two slices.
pub fn bytes_eq(a: &[u8], b: &[u8]) -> (r: bool)
    ensures
        r == (a@ == b@),
{
    if a.len() != b.len() {
        proof {
            assert(a@ != b@) by {
                assert(a@.len() != b@.len());
            }
        }
        return false;
    }
    let mut i: usize = 0;
    while i < a.len()
        invariant
            i <= a.len(),
            a@.len() == b@.len(),
            forall|j: int| 0 <= j < i ==> a@[j] == b@[j],
        decreases a.len() - i,
    {
        if a[i] != b[i] {
            return false;
        }
        i += 1;
    }
    proof {
        assert(a@ =~= b@);
    }
    true
}

/// Splits at `sep`, following `spec_split`.
fn split(s: &[u8], sep: u8) -> (r: Vec<Vec<u8>>)
    ensures
        r@.map_values(|v: Vec<u8>| v@) == spec_split(s@, sep),
    decreases s@.len(),
{
    let ghost f = |v: Vec<u8>| v@;
    if s.len() == 0 {
        let r: Vec<Vec<u8>> = Vec::new();
        proof {
            assert(r@.map_values(f) =~= spec_split(s@, sep));
        }
        r
    } else if s[0] == sep {
        let rest = slice_subrange(s, 1, s.len());
        proof {
            assert(rest@ =~= s@.skip(1));
        }
        let mut r = split(rest, sep);
        r.insert(0, Vec::new());
        proof {
            assert(r@.map_values(f) =~= seq![Seq::<u8>::empty()] + spec_split(s@.skip(1), sep));
        }
        r
    } else {
        let tail = slice_subrange(s, 1, s.len());
        proof {
            assert(tail@ =~= s@.skip(1));
        }
        let mut r = split(tail, sep);
        if r.len() == 0 {
            let whole: Vec<u8> = slice_to_vec(s);
            r.push(whole);
            proof {
                assert(spec_split(s@.skip(1), sep).len() == 0);
                assert(r@.map_values(f) =~= seq![s@]);
            }
            r
        } else {
            let b = s[0];
            self_insert_front(&mut r, b);
            proof {
                let rest = spec_split(s@.skip(1), sep);
                assert(r@.map_values(f)[0] == seq![s@[0]] + rest[0]);
                assert forall|j: int| 1 <= j < r@.len() implies r@.map_values(f)[j] == (
                seq![seq![s@[0]] + rest[0]] + rest.skip(1))[j] by {
                    assert(r@.map_values(f)[j] == rest[j]);
                }
                assert(r@.map_values(f) =~= seq![seq![s@[0]] + rest[0]] + rest.skip(1));
            }
            r
        }
    }
}

/// Prepends `b` to the first segment.
fn self_insert_front(r: &mut Vec<Vec<u8>>, b: u8)
    requires
        old(r)@.len() > 0,
    ensures
        final(r)@.len() == old(r)@.len(),
        final(r)@[0]@ == seq![b] + old(r)@[0]@,
        forall|j: int| 1 <= j < old(r)@.len() ==> final(r)@[j] == old(r)@[j],
{
    r[0].insert(0, b);
    proof {
        assert(r@[0]@ =~= seq![b] + old(r)@[0]@);
    }
}

/// The nonempty space-separated tokens of a row.
fn tokens(line: &[u8]) -> (r: Vec<Vec<u8>>)
    ensures
        r@.map_values(|v: Vec<u8>| v@) == spec_tokens(line@),
{
    let ghost f = |v: Vec<u8>| v@;
    let ghost pred = |t: Seq<u8>| t.len() > 0;
    let parts = split(line, SP);
    let ghost pm = parts@.map_values(f);
    let mut r: Vec<Vec<u8>> = Vec::new();
    let mut i: usize = 0;
    proof {
        assert(pm.take(0int).filter(pred) =~= Seq::<Seq<u8>>::empty()) by {
            reveal(Seq::filter);
        }
    }
    while i < parts.len()
        invariant
            f == (|v: Vec<u8>| v@),
            pred == (|t: Seq<u8>| t.len() > 0),
            i <= parts.len(),
            pm == parts@.map_values(f),
            r@.map_values(f) == pm.take(i as int).filter(pred),
        decreases parts.len() - i,
    {
        proof {
            assert(pm.take(i + 1int).drop_last() =~= pm.take(i as int));
            assert(pm.take(i + 1int).last() == pm[i as int]);
            lemma_map_index(parts@, f, i as int);
            assert(f(parts@[i as int]) == parts@[i as int]@);
            assert(pred(pm[i as int]) == (pm[i as int].len() > 0));
            reveal(Seq::filter);
        }
        if parts[i].len() > 0 {
            let t = slice_to_vec(parts[i].as_slice());
            let ghost r0 = r@;
            r.push(t);
            proof {
                lemma_map_push(r0, f, t);
                assert(f(t) == t@);
                assert(r@.map_values(f) =~= pm.take(i + 1int).filter(pred));
            }
        } else {
            proof {
                assert(!pred(pm[i as int]));
            }
        }
        i += 1;
    }
    proof {
        assert(pm.take(pm.len() as int) =~= pm);
    }
    r
}

/// Under `all_digits`, the value is nonnegative and grows with the prefix.
proof fn lemma_dec_val_bounds(s: Seq<u8>)
    requires
        all_digits(s),
    ensures
        dec_val(s) >= 0,
        forall|k: int| 0 <= k <= s.len() ==> dec_val(#[trigger] s.take(k)) <= dec_val(s),
    decreases s.len(),
{
    if s.len() == 0 {
        assert(forall|k: int| 0 <= k <= s.len() ==> s.take(k) =~= s);
    } else {
        let head = s.drop_last();
        assert(all_digits(head));
        lemma_dec_val_bounds(head);
        assert(dec_val(s) == dec_val(head) * 10 + (s.last() - 48));
        assert(dec_val(head) * 10 >= dec_val(head)) by {
            assert(dec_val(head) >= 0);
        }
        assert forall|k: int| 0 <= k <= s.len() implies dec_val(#[trigger] s.take(k)) <= dec_val(
            s,
        ) by {
            if k == s.len() {
                assert(s.take(k) =~= s);
            } else {
                assert(s.take(k) =~= head.take(k));
                assert(dec_val(head.take(k)) <= dec_val(head));
            }
        }
    }
}

/// Reads a decimal token, following `spec_dec`.
fn parse_u64(t: &[u8]) -> (r: Option<u64>)
    ensures
        r == spec_dec(t@),
{
    if t.len() == 0 {
        return None;
    }
    let mut acc: u64 = 0;
    let mut i: usize = 0;
    while i < t.len()
        invariant
            i <= t.len(),
            t@.len() > 0,
            all_digits(t@.take(i as int)),
            acc == dec_val(t@.take(i as int)),
        decreases t.len() - i,
    {
        let b = t[i];
        if b < 48 || b > 57 {
            proof {
                assert(!is_digit(t@[i as int]));
                assert(!all_digits(t@));
            }
            return None;
        }
        let d = (b - 48) as u64;
        proof {
            assert(t@.take(i + 1int).drop_last() =~= t@.take(i as int));
            assert(t@.take(i + 1int).last() == t@[i as int]);
        }
        let next = match acc.checked_mul(10) {
            Some(m) => m.checked_add(d),
            None => None,
        };
        match next {
            Some(v) => {
                acc = v;
            },
            None => {
                proof {
                    assert(dec_val(t@.take(i + 1int)) > u64::MAX);
                    if all_digits(t@) {
                        lemma_dec_val_bounds(t@);
                        assert(dec_val(t@) >= dec_val(t@.take(i + 1int)));
                    }
                }
                return None;
            },
        }
        i += 1;
    }
    proof {
        assert(t@.take(t@.len() as int) =~= t@);
    }
    Some(acc)
}

/// Parses one heading/values line pair, following `spec_section`.
fn parse_section(hdr: &Vec<u8>, val: &Vec<u8>) -> (r: Option<Section>)
    ensures
        match r {
            Some(sec) => spec_section(hdr@, val@) == Some(section_model(sec)),
            None => spec_section(hdr@, val@) is None,
        },
{
    let ghost f = |v: Vec<u8>| v@;
    let ghost cf = |c: (Vec<u8>, u64)| (c.0@, c.1);
    let hts = tokens(hdr.as_slice());
    let vts = tokens(val.as_slice());
    if hts.len() == 0 || vts.len() == 0 {
        return None;
    }
    let h0 = &hts[0];
    proof {
        lemma_map_index(hts@, f, 0int);
        lemma_map_index(vts@, f, 0int);
        assert(f(hts@[0int]) == hts@[0int]@);
        assert(f(vts@[0int]) == vts@[0int]@);
    }
    if h0.len() < 2 || h0[h0.len() - 1] != COLON {
        return None;
    }
    if !bytes_eq(vts[0].as_slice(), h0.as_slice()) {
        return None;
    }
    let name = slice_subrange(h0.as_slice(), 0, h0.len() - 1);
    let name_vec: Vec<u8> = slice_to_vec(name);
    proof {
        assert(name_vec@ =~= hts@.map_values(f)[0].drop_last());
    }
    let ghost hm = hts@.map_values(f);
    let ghost vm = vts@.map_values(f);
    let mut columns: Vec<(Vec<u8>, u64)> = Vec::new();
    let mut j: usize = 1;
    let n = if hts.len() < vts.len() {
        hts.len()
    } else {
        vts.len()
    };
    proof {
        assert(hm.skip(1int).skip(0int) =~= hm.skip(1int));
        assert(vm.skip(1int).skip(0int) =~= vm.skip(1int));
    }
    while j < n
        invariant
            1 <= j <= n,
            n <= hm.len(),
            n <= vm.len(),
            n == if hm.len() < vm.len() {
                hm.len()
            } else {
                vm.len()
            },
            f == (|v: Vec<u8>| v@),
            cf == (|c: (Vec<u8>, u64)| (c.0@, c.1)),
            hm == hts@.map_values(f),
            vm == vts@.map_values(f),
            hts@.len() == hm.len(),
            vts@.len() == vm.len(),
            spec_columns(hm.skip(1), vm.skip(1)) == columns@.map_values(cf) + spec_columns(
                hm.skip(j as int),
                vm.skip(j as int),
            ),
        decreases n - j,
    {
        proof {
            assert(hm.skip(j as int)[0] == hm[j as int]);
            assert(vm.skip(j as int)[0] == vm[j as int]);
            assert(hm.skip(j as int).skip(1) =~= hm.skip(j + 1int));
            assert(vm.skip(j as int).skip(1) =~= vm.skip(j + 1int));
            lemma_map_index(hts@, f, j as int);
            lemma_map_index(vts@, f, j as int);
            assert(f(hts@[j as int]) == hts@[j as int]@);
            assert(f(vts@[j as int]) == vts@[j as int]@);
        }
        let ghost c0 = columns@;
        match parse_u64(vts[j].as_slice()) {
            Some(v) => {
                let cname: Vec<u8> = slice_to_vec(hts[j].as_slice());
                columns.push((cname, v));
                proof {
                    lemma_map_push(c0, cf, (cname, v));
                    assert(cf((cname, v)) == (cname@, v));
                    assert(spec_columns(hm.skip(j as int), vm.skip(j as int)) == seq![
                        (hm[j as int], v),
                    ] + spec_columns(hm.skip(j + 1int), vm.skip(j + 1int)));
                    assert(columns@.map_values(cf) =~= c0.map_values(cf).push((hm[j as int], v)));
                    assert(columns@.map_values(cf) + spec_columns(hm.skip(j + 1int), vm.skip(
                        j + 1int,
                    )) =~= c0.map_values(cf) + spec_columns(hm.skip(j as int), vm.skip(j as int)));
                }
            },
            None => {
                proof {
                    assert(spec_columns(hm.skip(j as int), vm.skip(j as int)) == spec_columns(
                        hm.skip(j + 1int),
                        vm.skip(j + 1int),
                    ));
                }
            },
        }
        j += 1;
    }
    proof {
        if hm.len() <= vm.len() {
            assert(hm.skip(n as int).len() == 0);
        } else {
            assert(vm.skip(n as int).len() == 0);
        }
        assert(spec_columns(hm.skip(n as int), vm.skip(n as int)) =~= Seq::<(Seq<u8>, u64)>::empty());
        assert(columns@.map_values(cf) =~= spec_columns(hm.skip(1), vm.skip(1)));
    }
    Some(Section { name: name_vec, columns })
}

/// Parses a whole input into its sections, following `spec_parse`: a
/// malformed shape yields `ParseMalformed` and nothing else.
pub fn parse(input: &[u8]) -> (r: Result<Vec<Section>, AgentError>)
    ensures
        match spec_parse(input@) {
            Some(m) => r matches Ok(v) && sections_model(v@) == m,
            None => r matches Err(e) && e == AgentError::ParseMalformed,
        },
{
    let ghost f = |v: Vec<u8>| v@;
    let ghost sf = |s: Section| section_model(s);
    let lines = split(input, NL);
    let ghost lm = lines@.map_values(f);
    let mut secs: Vec<Section> = Vec::new();
    let mut i: usize = 0;
    proof {
        assert(lm.skip(0int) =~= lm);
    }
    while i < lines.len()
        invariant
            f == (|v: Vec<u8>| v@),
            sf == (|s: Section| section_model(s)),
            i <= lines.len(),
            i % 2 == 0,
            lm == lines@.map_values(f),
            lm == spec_split(input@, NL),
            lines@.len() == lm.len(),
            match spec_sections(lm.skip(i as int)) {
                Some(rest) => spec_sections(lm) == Some(secs@.map_values(sf) + rest),
                None => spec_sections(lm) is None,
            },
        decreases lines.len() - i,
    {
        if i + 1 >= lines.len() {
            proof {
                assert(lm.skip(i as int).len() == 1);
                assert(spec_sections(lm.skip(i as int)) is None);
            }
            return Err(AgentError::ParseMalformed);
        }
        proof {
            assert(lm.skip(i as int)[0] == lm[i as int]);
            assert(lm.skip(i as int)[1] == lm[i + 1int]);
            assert(lm.skip(i as int).skip(2) =~= lm.skip(i + 2int));
            lemma_map_index(lines@, f, i as int);
            lemma_map_index(lines@, f, i + 1int);
            assert(f(lines@[i as int]) == lines@[i as int]@);
            assert(f(lines@[i + 1int]) == lines@[i + 1int]@);
            assert(lm.skip(i as int).len() >= 2);
        }
        let ghost s0 = secs@;
        match parse_section(&lines[i], &lines[i + 1]) {
            Some(sec) => {
                let ghost secm = section_model(sec);
                secs.push(sec);
                proof {
                    lemma_map_push(s0, sf, sec);
                    assert(sf(sec) == secm);
                    assert(spec_sections(lm.skip(i as int)) matches Some(rest0) ==> rest0 == seq![
                        secm,
                    ] + spec_sections(lm.skip(i + 2int)).unwrap());
                    match spec_sections(lm.skip(i + 2int)) {
                        Some(rest) => {
                            assert(secs@.map_values(sf) + rest =~= s0.map_values(sf) + (seq![secm]
                                + rest));
                        },
                        None => {
                            assert(spec_sections(lm.skip(i as int)) is None);
                        },
                    }
                }
            },
            None => {
                proof {
                    assert(spec_sections(lm.skip(i as int)) is None);
                }
                return Err(AgentError::ParseMalformed);
            },
        }
        i += 2;
    }
    proof {
        assert(lm.skip(lines@.len() as int).len() == 0);
        assert(secs@.map_values(sf) + Seq::<(Seq<u8>, Seq<(Seq<u8>, u64)>)>::empty() =~= secs@
            .map_values(sf));
    }
    Ok(secs)
}

/// Looks a value up by section and column name, following `spec_lookup`.
pub fn lookup(secs: &Vec<Section>, outer: &[u8], inner: &[u8]) -> (r: Option<u64>)
    ensures
        r == spec_lookup(sections_model(secs@), outer@, inner@),
{
    let ghost sf = |s: Section| section_model(s);
    let ghost sm = sections_model(secs@);
    let mut i: usize = secs.len();
    proof {
        assert(sm.take(secs@.len() as int) =~= sm);
    }
    while i > 0
        invariant
            sf == (|s: Section| section_model(s)),
            i <= secs.len(),
            sm == sections_model(secs@),
            secs@.len() == sm.len(),
            spec_lookup(sm, outer@, inner@) == spec_lookup(sm.take(i as int), outer@, inner@),
        decreases i,
    {
        i -= 1;
        proof {
            assert(sm.take(i + 1int).last() == sm[i as int]);
            assert(sm.take(i + 1int).drop_last() =~= sm.take(i as int));
            lemma_map_index(secs@, sf, i as int);
            assert(sf(secs@[i as int]) == section_model(secs@[i as int]));
        }
        if bytes_eq(secs[i].name.as_slice(), outer) {
            return col_lookup(&secs[i].columns, inner);
        }
    }
    proof {
        assert(sm.take(0int).len() == 0);
    }
    None
}

/// Looks a column up within one section, following `spec_col_lookup`.
fn col_lookup(cols: &Vec<(Vec<u8>, u64)>, inner: &[u8]) -> (r: Option<u64>)
    ensures
        r == spec_col_lookup(cols@.map_values(|c: (Vec<u8>, u64)| (c.0@, c.1)), inner@),
{
    let ghost cf = |c: (Vec<u8>, u64)| (c.0@, c.1);
    let ghost cm = cols@.map_values(cf);
    let mut i: usize = cols.len();
    proof {
        assert(cm.take(cols@.len() as int) =~= cm);
    }
    while i > 0
        invariant
            cf == (|c: (Vec<u8>, u64)| (c.0@, c.1)),
            i <= cols.len(),
            cm == cols@.map_values(cf),
            cols@.len() == cm.len(),
            spec_col_lookup(cm, inner@) == spec_col_lookup(cm.take(i as int), inner@),
        decreases i,
    {
        i -= 1;
        proof {
            assert(cm.take(i + 1int).last() == cm[i as int]);
            assert(cm.take(i + 1int).drop_last() =~= cm.take(i as int));
            lemma_map_index(cols@, cf, i as int);
            assert(cf(cols@[i as int]) == (cols@[i as int].0@, cols@[i as int].1));
        }
        if bytes_eq(cols[i].0.as_slice(), inner) {
            return Some(cols[i].1);
        }
    }
    proof {
        assert(cm.take(0int).len() == 0);
    }
    None
}

} // verus!
