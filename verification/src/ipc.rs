//! The text protocol of the stepper panel's socket. A client writes one request per
//! line (`rel_move <stepper> <delta>`, `abs_move <stepper> <position>`,
//! `reset <stepper> <position>`, `get_positions`); the panel answers `get_positions`
//! with `positions 0=<p0> 1=<p1> ...` and a newline.

use vstd::prelude::*;
use crate::text::{
    chars_of, string_from_chars, push_str, push_u64_text, push_i64_text, parse_int, parse_int_spec,
    nat_text, int_text, split_words, trim_chars, words, trim, views, chars_eq, is_ws, no_ws, join_words,
    lemma_nat_text_digits, lemma_parse_nat_text, lemma_parse_int_text, lemma_words_of_join, lemma_trim_plain,
};

verus! {

/// A request to the stepper panel.
#[derive(Clone, Copy, Debug, PartialEq, Eq, Structural)]
pub enum PanelRequest {
    RelMove { stepper: usize, delta: i32 },
    AbsMove { stepper: usize, position: i32 },
    Reset { stepper: usize, position: i32 },
    GetPositions,
}

/// What the panel makes of a received line.
#[derive(Clone, Copy, Debug, PartialEq, Eq, Structural)]
pub enum PanelCommand {
    /// Nothing but white space.
    Empty,
    /// A well-formed request.
    Request(PanelRequest),
    /// A known verb with a wrong number of arguments or arguments that do not parse: ignored.
    Ignored,
    /// An unknown verb.
    Unknown,
}

/// A stepper index as `str::parse::<usize>` reads it.
pub open spec fn usize_field(t: Seq<char>) -> Option<usize> {
    match parse_int_spec(t, 0, usize::MAX as int) {
        Ok(v) => Some(v as usize),
        Err(_) => None,
    }
}

/// A step count or position as `str::parse::<i32>` reads it.
pub open spec fn i32_field(t: Seq<char>) -> Option<i32> {
    match parse_int_spec(t, i32::MIN as int, i32::MAX as int) {
        Ok(v) => Some(v as i32),
        Err(_) => None,
    }
}

/// The request of a line whose first word is `rel_move`, `abs_move` or `reset`
/// (`kind` 0, 1, 2): exactly two arguments that parse, otherwise ignored.
pub open spec fn move_command(parts: Seq<Seq<char>>, kind: int) -> PanelCommand {
    if parts.len() == 3 && usize_field(parts[1]) is Some && i32_field(parts[2]) is Some {
        let s = usize_field(parts[1])->0;
        let v = i32_field(parts[2])->0;
        PanelCommand::Request(
            if kind == 0 {
                PanelRequest::RelMove { stepper: s, delta: v }
            } else if kind == 1 {
                PanelRequest::AbsMove { stepper: s, position: v }
            } else {
                PanelRequest::Reset { stepper: s, position: v }
            },
        )
    } else {
        PanelCommand::Ignored
    }
}

/// What a line means: its words (after trimming), dispatched on the first.
pub open spec fn command_of(line: Seq<char>) -> PanelCommand {
    let parts = words(trim(line));
    if parts.len() == 0 {
        PanelCommand::Empty
    } else if parts[0] == "rel_move"@ {
        move_command(parts, 0)
    } else if parts[0] == "abs_move"@ {
        move_command(parts, 1)
    } else if parts[0] == "reset"@ {
        move_command(parts, 2)
    } else if parts[0] == "get_positions"@ {
        PanelCommand::Request(PanelRequest::GetPositions)
    } else {
        PanelCommand::Unknown
    }
}

fn parse_usize_field(t: &[char]) -> (r: Option<usize>)
    ensures
        r == usize_field(t@),
{
    match parse_int(t, 0, usize::MAX as i128) {
        Ok(v) => Some(v as usize),
        Err(_) => None,
    }
}

fn parse_i32_field(t: &[char]) -> (r: Option<i32>)
    ensures
        r == i32_field(t@),
{
    match parse_int(t, i32::MIN as i128, i32::MAX as i128) {
        Ok(v) => Some(v as i32),
        Err(_) => None,
    }
}

fn parse_move(parts: &Vec<Vec<char>>, kind: u8) -> (r: PanelCommand)
    requires
        kind <= 2,
    ensures
        r == move_command(views(parts@), kind as int),
{
    if parts.len() == 3 {
        let s = parse_usize_field(parts[1].as_slice());
        let v = parse_i32_field(parts[2].as_slice());
        match (s, v) {
            (Some(s), Some(v)) => PanelCommand::Request(
                if kind == 0 {
                    PanelRequest::RelMove { stepper: s, delta: v }
                } else if kind == 1 {
                    PanelRequest::AbsMove { stepper: s, position: v }
                } else {
                    PanelRequest::Reset { stepper: s, position: v }
                },
            ),
            _ => PanelCommand::Ignored,
        }
    } else {
        PanelCommand::Ignored
    }
}

/// Reads one line received on the panel's socket.
pub fn parse_command(cmd: &str) -> (r: PanelCommand)
    ensures
        r == command_of(cmd@),
{
    let cs = chars_of(cmd);
    let t = trim_chars(cs.as_slice());
    let parts = split_words(t.as_slice());
    if parts.len() == 0 {
        return PanelCommand::Empty;
    }
    let first = parts[0].as_slice();
    let rel = chars_of("rel_move");
    let abs = chars_of("abs_move");
    let rst = chars_of("reset");
    let getp = chars_of("get_positions");
    if chars_eq(first, rel.as_slice()) {
        parse_move(&parts, 0)
    } else if chars_eq(first, abs.as_slice()) {
        parse_move(&parts, 1)
    } else if chars_eq(first, rst.as_slice()) {
        parse_move(&parts, 2)
    } else if chars_eq(first, getp.as_slice()) {
        PanelCommand::Request(PanelRequest::GetPositions)
    } else {
        PanelCommand::Unknown
    }
}

/// The line of a request (without its newline).
pub open spec fn request_text(r: PanelRequest) -> Seq<char> {
    match r {
        PanelRequest::RelMove { stepper, delta } => "rel_move"@ + seq![' '] + nat_text(stepper as nat) + seq![' '] + int_text(delta as int),
        PanelRequest::AbsMove { stepper, position } => "abs_move"@ + seq![' '] + nat_text(stepper as nat) + seq![' '] + int_text(position as int),
        PanelRequest::Reset { stepper, position } => "reset"@ + seq![' '] + nat_text(stepper as nat) + seq![' '] + int_text(position as int),
        PanelRequest::GetPositions => "get_positions"@,
    }
}

/// Writes the line of a request (the sender adds the newline).
pub fn format_request(r: &PanelRequest) -> (s: String)
    ensures
        s@ == request_text(*r),
{
    let mut out: Vec<char> = Vec::new();
    let (verb, stepper, value): (&str, usize, i32) = match r {
        PanelRequest::RelMove { stepper, delta } => ("rel_move", *stepper, *delta),
        PanelRequest::AbsMove { stepper, position } => ("abs_move", *stepper, *position),
        PanelRequest::Reset { stepper, position } => ("reset", *stepper, *position),
        PanelRequest::GetPositions => {
            let cs = chars_of("get_positions");
            return string_from_chars(cs.as_slice());
        },
    };
    push_str(&mut out, verb);
    out.push(' ');
    push_u64_text(&mut out, stepper as u64);
    out.push(' ');
    push_i64_text(&mut out, value as i64);
    string_from_chars(out.as_slice())
}

/// The ` <k>=<p[k]>` entries of the first `n` positions.
pub open spec fn entries_text(p: Seq<i32>, n: nat) -> Seq<char>
    decreases n,
{
    if n == 0 {
        Seq::empty()
    } else {
        let k = (n - 1) as nat;
        entries_text(p, k) + seq![' '] + nat_text(k) + seq!['='] + int_text(p[k as int] as int)
    }
}

/// The panel's answer to `get_positions`.
pub open spec fn positions_text(p: Seq<i32>) -> Seq<char> {
    "positions"@ + entries_text(p, p.len()) + seq!['\n']
}

/// Writes the answer to `get_positions`: `positions`, then ` <index>=<position>` per stepper, then a newline.
pub fn positions_response(positions: &[i32]) -> (s: String)
    ensures
        s@ == positions_text(positions@),
{
    let mut out: Vec<char> = Vec::new();
    push_str(&mut out, "positions");
    let mut k: usize = 0;
    while k < positions.len()
        invariant
            k <= positions@.len(),
            out@ == "positions"@ + entries_text(positions@, k as nat),
        decreases positions@.len() - k,
    {
        out.push(' ');
        push_u64_text(&mut out, k as u64);
        out.push('=');
        push_i64_text(&mut out, positions[k] as i64);
        k = k + 1;
        assert(out@ =~= "positions"@ + entries_text(positions@, k as nat));
    }
    out.push('\n');
    string_from_chars(out.as_slice())
}

/// Why a positions answer could not be read.
#[derive(Clone, Debug, PartialEq, Eq)]
pub enum PositionsTextError {
    /// Nothing but white space.
    Empty,
    /// The first word is not `positions`; it is given.
    Unexpected(Vec<char>),
    /// An entry without '='; it is given.
    Malformed(Vec<char>),
    /// An entry whose index does not parse; the index text is given.
    InvalidIndex(Vec<char>),
    /// An entry whose value does not parse; the value text is given.
    InvalidValue(Vec<char>),
    /// An index so large that no list of positions can reach it.
    IndexOutOfRange,
}

/// The mathematical form of a positions-answer error.
pub enum PositionsFault {
    Empty,
    Unexpected(Seq<char>),
    Malformed(Seq<char>),
    InvalidIndex(Seq<char>),
    InvalidValue(Seq<char>),
    IndexOutOfRange,
}

impl View for PositionsTextError {
    type V = PositionsFault;

    open spec fn view(&self) -> PositionsFault {
        match self {
            PositionsTextError::Empty => PositionsFault::Empty,
            PositionsTextError::Unexpected(t) => PositionsFault::Unexpected(t@),
            PositionsTextError::Malformed(t) => PositionsFault::Malformed(t@),
            PositionsTextError::InvalidIndex(t) => PositionsFault::InvalidIndex(t@),
            PositionsTextError::InvalidValue(t) => PositionsFault::InvalidValue(t@),
            PositionsTextError::IndexOutOfRange => PositionsFault::IndexOutOfRange,
        }
    }
}

/// The position of the first '=' in a word.
pub open spec fn eq_pos(t: Seq<char>) -> Option<int>
    decreases t.len(),
{
    if t.len() == 0 {
        None
    } else if t[0] == '=' {
        Some(0)
    } else {
        match eq_pos(t.drop_first()) {
            Some(k) => Some(k + 1),
            None => None,
        }
    }
}

/// One `index=value` entry of a positions answer.
pub open spec fn entry_of(t: Seq<char>) -> Result<(usize, i32), PositionsFault> {
    match eq_pos(t) {
        None => Err(PositionsFault::Malformed(t)),
        Some(k) => {
            let key = t.subrange(0, k);
            let val = t.subrange(k + 1, t.len() as int);
            match usize_field(key) {
                None => Err(PositionsFault::InvalidIndex(key)),
                Some(i) => match i32_field(val) {
                    None => Err(PositionsFault::InvalidValue(val)),
                    Some(v) => Ok((i, v)),
                },
            }
        },
    }
}

/// The entries of a positions answer, or the error of the first entry that fails.
pub open spec fn entries_of(ts: Seq<Seq<char>>) -> Result<Seq<(usize, i32)>, PositionsFault>
    decreases ts.len(),
{
    if ts.len() == 0 {
        Ok(Seq::empty())
    } else {
        match entry_of(ts[0]) {
            Err(e) => Err(e),
            Ok(x) => match entries_of(ts.drop_first()) {
                Err(e) => Err(e),
                Ok(rest) => Ok(seq![x] + rest),
            },
        }
    }
}

/// The largest index of the entries (0 when there are none).
pub open spec fn max_index(es: Seq<(usize, i32)>) -> usize
    decreases es.len(),
{
    if es.len() == 0 {
        0
    } else {
        let m = max_index(es.drop_last());
        if es.last().0 > m { es.last().0 } else { m }
    }
}

/// The value of the last entry for index `k`, if any.
pub open spec fn last_value(es: Seq<(usize, i32)>, k: int) -> Option<i32>
    decreases es.len(),
{
    if es.len() == 0 {
        None
    } else if es.last().0 == k {
        Some(es.last().1)
    } else {
        last_value(es.drop_last(), k)
    }
}

/// The positions the entries give: up to the largest index, later entries winning, 0 elsewhere.
pub open spec fn positions_of_entries(es: Seq<(usize, i32)>) -> Seq<i32> {
    Seq::new((max_index(es) + 1) as nat, |k: int| match last_value(es, k) { Some(v) => v, None => 0i32 })
}

/// What an answer to `get_positions` gives.
pub open spec fn positions_answer(response: Seq<char>) -> Result<Seq<i32>, PositionsFault> {
    let tokens = words(trim(response));
    if tokens.len() == 0 {
        Err(PositionsFault::Empty)
    } else if tokens[0] != "positions"@ {
        Err(PositionsFault::Unexpected(tokens[0]))
    } else {
        match entries_of(tokens.drop_first()) {
            Err(e) => Err(e),
            Ok(es) => if max_index(es) == usize::MAX {
                Err(PositionsFault::IndexOutOfRange)
            } else {
                Ok(positions_of_entries(es))
            },
        }
    }
}

fn find_eq(t: &[char]) -> (r: Option<usize>)
    ensures
        match r {
            Some(k) => eq_pos(t@) == Some(k as int) && k < t@.len(),
            None => eq_pos(t@) is None,
        },
{
    let mut i: usize = 0;
    assert(t@.skip(0) =~= t@);
    while i < t.len()
        invariant
            i <= t@.len(),
            forall|j: int| 0 <= j < i ==> t@[j] != '=',
            eq_pos(t@) == match eq_pos(t@.skip(i as int)) { Some(k) => Some(k + i), None => None },
        decreases t@.len() - i,
    {
        assert(t@.skip(i as int)[0] == t@[i as int]);
        assert(t@.skip(i as int).drop_first() =~= t@.skip(i + 1));
        if t[i] == '=' {
            return Some(i);
        }
        i = i + 1;
    }
    assert(t@.skip(i as int).len() == 0);
    None
}

fn copy_range(t: &[char], lo: usize, hi: usize) -> (r: Vec<char>)
    requires
        lo <= hi <= t@.len(),
    ensures
        r@ == t@.subrange(lo as int, hi as int),
{
    let mut out: Vec<char> = Vec::new();
    let mut i = lo;
    while i < hi
        invariant
            lo <= i <= hi <= t@.len(),
            out@ == t@.subrange(lo as int, i as int),
        decreases hi - i,
    {
        out.push(t[i]);
        i = i + 1;
        assert(out@ =~= t@.subrange(lo as int, i as int));
    }
    out
}

fn parse_entry(t: &[char]) -> (r: Result<(usize, i32), PositionsTextError>)
    ensures
        match r {
            Ok(x) => entry_of(t@) == Ok::<(usize, i32), PositionsFault>(x),
            Err(e) => entry_of(t@) == Err::<(usize, i32), PositionsFault>(e@),
        },
{
    let k = match find_eq(t) {
        None => {
            assert(t@.subrange(0, t@.len() as int) =~= t@);
            return Err(PositionsTextError::Malformed(copy_range(t, 0, t.len())));
        },
        Some(k) => k,
    };
    assert(k < t.len());
    let key = copy_range(t, 0, k);
    let val = copy_range(t, k + 1, t.len());
    match parse_usize_field(key.as_slice()) {
        None => Err(PositionsTextError::InvalidIndex(key)),
        Some(i) => match parse_i32_field(val.as_slice()) {
            None => Err(PositionsTextError::InvalidValue(val)),
            Some(v) => Ok((i, v)),
        },
    }
}

proof fn lemma_entries_of_prefix(ts: Seq<Seq<char>>, i: int, es: Seq<(usize, i32)>)
    requires
        0 <= i < ts.len(),
        entries_of(ts.take(i)) == Ok::<Seq<(usize, i32)>, PositionsFault>(es),
    ensures
        match entry_of(ts[i]) {
            Err(e) => entries_of(ts.take(i + 1)) == Err::<Seq<(usize, i32)>, PositionsFault>(e)
                && entries_of(ts) == Err::<Seq<(usize, i32)>, PositionsFault>(e),
            Ok(x) => entries_of(ts.take(i + 1)) == Ok::<Seq<(usize, i32)>, PositionsFault>(es.push(x)),
        },
    decreases i,
{
    if i == 0 {
        assert(ts.take(1).drop_first() =~= Seq::<Seq<char>>::empty());
        assert(ts.take(1)[0] == ts[0]);
        assert(es =~= Seq::<(usize, i32)>::empty());
        match entry_of(ts[0]) {
            Err(e) => {},
            Ok(x) => { assert(seq![x] + Seq::<(usize, i32)>::empty() =~= es.push(x)); },
        }
    } else {
        let tail = ts.drop_first();
        assert(ts.take(i).drop_first() =~= tail.take(i - 1));
        assert(ts.take(i + 1).drop_first() =~= tail.take(i));
        assert(ts.take(i)[0] == ts[0]);
        assert(ts.take(i + 1)[0] == ts[0]);
        assert(tail[i - 1] == ts[i]);
        assert(ts.take(i).len() > 0);
        match entry_of(ts[0]) {
            Err(e) => {},
            Ok(x0) => {
                let rest = es.drop_first();
                assert(entries_of(ts.take(i)) == match entries_of(ts.take(i).drop_first()) {
                    Err(e) => Err(e),
                    Ok(r) => Ok::<Seq<(usize, i32)>, PositionsFault>(seq![x0] + r),
                });
                let r = entries_of(tail.take(i - 1));
                assert(r is Ok);
                let rr = r.get_Ok_0();
                assert((seq![x0] + rr).drop_first() =~= rr);
                assert(entries_of(tail.take(i - 1)) == Ok::<Seq<(usize, i32)>, PositionsFault>(rest));
                lemma_entries_of_prefix(tail, i - 1, rest);
                match entry_of(ts[i]) {
                    Err(e) => {},
                    Ok(x) => { assert(seq![x0] + rest.push(x) =~= es.push(x)); },
                }
            },
        }
    }
}

/// Reads the answer to `get_positions`.
pub fn parse_positions_response(response: &str) -> (r: Result<Vec<i32>, PositionsTextError>)
    ensures
        match positions_answer(response@) {
            Ok(p) => r matches Ok(v) && v@ == p,
            Err(e) => r matches Err(x) && x@ == e,
        },
{
    let cs = chars_of(response);
    let t = trim_chars(cs.as_slice());
    let tokens = split_words(t.as_slice());
    if tokens.len() == 0 {
        return Err(PositionsTextError::Empty);
    }
    let head = chars_of("positions");
    assert(views(tokens@)[0] == tokens@[0]@);
    if !chars_eq(tokens[0].as_slice(), head.as_slice()) {
        assert(tokens@[0]@.subrange(0, tokens@[0]@.len() as int) =~= tokens@[0]@);
        return Err(PositionsTextError::Unexpected(copy_range(tokens[0].as_slice(), 0, tokens[0].len())));
    }
    let ghost ts = views(tokens@).drop_first();
    let mut entries: Vec<(usize, i32)> = Vec::new();
    let mut i: usize = 1;
    assert(ts.take(0) =~= Seq::<Seq<char>>::empty());
    while i < tokens.len()
        invariant
            1 <= i <= tokens@.len(),
            ts == views(tokens@).drop_first(),
            views(tokens@) == words(trim(response@)),
            tokens@[0]@ == "positions"@,
            entries_of(ts.take(i - 1)) == Ok::<Seq<(usize, i32)>, PositionsFault>(entries@),
        decreases tokens@.len() - i,
    {
        assert(ts[i - 1] == tokens@[i as int]@);
        proof { lemma_entries_of_prefix(ts, i - 1, entries@); }
        match parse_entry(tokens[i].as_slice()) {
            Err(e) => { return Err(e); },
            Ok(x) => { entries.push(x); },
        }
        i = i + 1;
    }
    assert(ts.take(i - 1) =~= ts);
    let mut max: usize = 0;
    let mut j: usize = 0;
    while j < entries.len()
        invariant
            j <= entries@.len(),
            max == max_index(entries@.take(j as int)),
        decreases entries@.len() - j,
    {
        assert(entries@.take(j + 1).drop_last() =~= entries@.take(j as int));
        if entries[j].0 > max {
            max = entries[j].0;
        }
        j = j + 1;
    }
    assert(entries@.take(j as int) =~= entries@);
    if max == usize::MAX {
        return Err(PositionsTextError::IndexOutOfRange);
    }
    let mut positions: Vec<i32> = Vec::new();
    let mut k: usize = 0;
    while k <= max
        invariant
            k <= max + 1,
            max < usize::MAX,
            positions@ == Seq::new(k as nat, |x: int| 0i32),
        decreases max + 1 - k,
    {
        positions.push(0);
        k = k + 1;
        assert(positions@ =~= Seq::new(k as nat, |x: int| 0i32));
    }
    let mut e: usize = 0;
    while e < entries.len()
        invariant
            e <= entries@.len(),
            max == max_index(entries@),
            positions@.len() == max + 1,
            forall|x: int| 0 <= x <= max ==> positions@[x] == match last_value(entries@.take(e as int), x) { Some(v) => v, None => 0i32 },
        decreases entries@.len() - e,
    {
        let (idx, val) = entries[e];
        proof { lemma_max_index_bound(entries@, e as int); }
        positions.set(idx, val);
        assert(entries@.take(e + 1).drop_last() =~= entries@.take(e as int));
        e = e + 1;
    }
    assert(entries@.take(e as int) =~= entries@);
    assert(positions@ =~= positions_of_entries(entries@));
    Ok(positions)
}

proof fn lemma_max_index_bound(es: Seq<(usize, i32)>, i: int)
    requires
        0 <= i < es.len(),
    ensures
        es[i].0 <= max_index(es),
    decreases es.len(),
{
    if i < es.len() - 1 {
        lemma_max_index_bound(es.drop_last(), i);
    }
}

proof fn lemma_int_text_word(v: int)
    ensures
        int_text(v).len() > 0,
        no_ws(int_text(v)),
        !is_ws(int_text(v)[0]),
        !is_ws(int_text(v).last()),
        forall|k: int| 0 <= k < int_text(v).len() ==> #[trigger] int_text(v)[k] != '=',
{
    if v < 0 {
        let m = (-v) as nat;
        lemma_nat_text_digits(m);
        let t = int_text(v);
        assert(t == seq!['-'] + nat_text(m));
        assert forall|k: int| 0 <= k < t.len() implies !is_ws(#[trigger] t[k]) && t[k] != '=' by {
            if k > 0 {
                assert(t[k] == nat_text(m)[k - 1]);
            }
        }
        assert(t.last() == nat_text(m)[nat_text(m).len() - 1]);
    } else {
        lemma_nat_text_digits(v as nat);
        let t = nat_text(v as nat);
        assert(t.last() == t[t.len() - 1]);
    }
}

proof fn lemma_nat_text_word(n: nat)
    ensures
        nat_text(n).len() > 0,
        no_ws(nat_text(n)),
        !is_ws(nat_text(n)[0]),
        !is_ws(nat_text(n).last()),
{
    lemma_nat_text_digits(n);
    assert(nat_text(n).last() == nat_text(n)[nat_text(n).len() - 1]);
}

proof fn lemma_literal_word(w: Seq<char>)
    requires
        w.len() > 0,
        forall|k: int| 0 <= k < w.len() ==> ('a' <= #[trigger] w[k] && w[k] <= 'z') || w[k] == '_',
    ensures
        no_ws(w),
        !is_ws(w[0]),
        !is_ws(w.last()),
{
    assert(w.last() == w[w.len() - 1]);
}

/// The line of a request is read back as that request.
pub proof fn lemma_request_roundtrip(r: PanelRequest)
    ensures
        command_of(request_text(r)) == PanelCommand::Request(r),
{
    reveal_strlit("rel_move");
    reveal_strlit("abs_move");
    reveal_strlit("reset");
    reveal_strlit("get_positions");
    assert("rel_move"@[0] != "abs_move"@[0]);
    assert("rel_move"@[2] != "reset"@[2]);
    assert("abs_move"@[0] != "reset"@[0]);
    assert("get_positions"@[0] != "rel_move"@[0]);
    assert("get_positions"@[0] != "abs_move"@[0]);
    assert("get_positions"@[0] != "reset"@[0]);
    lemma_literal_word("rel_move"@);
    lemma_literal_word("abs_move"@);
    lemma_literal_word("reset"@);
    lemma_literal_word("get_positions"@);
    match r {
        PanelRequest::GetPositions => {
            let toks = seq!["get_positions"@];
            assert(join_words(toks) == "get_positions"@);
            lemma_trim_plain("get_positions"@);
            lemma_words_of_join(toks);
        },
        PanelRequest::RelMove { stepper, delta } => { lemma_move_line("rel_move"@, stepper, delta); },
        PanelRequest::AbsMove { stepper, position } => { lemma_move_line("abs_move"@, stepper, position); },
        PanelRequest::Reset { stepper, position } => { lemma_move_line("reset"@, stepper, position); },
    }
}

proof fn lemma_move_line(verb: Seq<char>, stepper: usize, value: i32)
    requires
        verb.len() > 0,
        no_ws(verb),
        !is_ws(verb[0]),
    ensures
        ({
            let line = verb + seq![' '] + nat_text(stepper as nat) + seq![' '] + int_text(value as int);
            let parts = words(trim(line));
            &&& parts.len() == 3
            &&& parts[0] == verb
            &&& usize_field(parts[1]) == Some(stepper)
            &&& i32_field(parts[2]) == Some(value)
        }),
{
    let a = nat_text(stepper as nat);
    let b = int_text(value as int);
    lemma_nat_text_word(stepper as nat);
    lemma_int_text_word(value as int);
    let line = verb + seq![' '] + a + seq![' '] + b;
    let toks = seq![verb, a, b];
    assert(toks.drop_last() =~= seq![verb, a]);
    assert(seq![verb, a].drop_last() =~= seq![verb]);
    assert(join_words(seq![verb]) == verb);
    assert(join_words(seq![verb, a]) == verb + seq![' '] + a);
    assert(join_words(toks) == join_words(seq![verb, a]) + seq![' '] + b);
    assert(join_words(toks) =~= line);
    assert(line[0] == verb[0]);
    assert(line.last() == b.last());
    lemma_trim_plain(line);
    lemma_words_of_join(toks);
    lemma_parse_nat_text(stepper as nat, 0, usize::MAX as int);
    lemma_parse_int_text(value as int, i32::MIN as int, i32::MAX as int);
}

/// The entry word of position `v` of stepper `k`.
pub open spec fn entry_word(k: nat, v: i32) -> Seq<char> {
    nat_text(k) + seq!['='] + int_text(v as int)
}

/// The words of the answer for the first `n` positions.
pub open spec fn answer_words(p: Seq<i32>, n: nat) -> Seq<Seq<char>> {
    seq!["positions"@] + Seq::new(n, |k: int| entry_word(k as nat, p[k]))
}

proof fn lemma_answer_join(p: Seq<i32>, n: nat)
    requires
        n <= p.len(),
    ensures
        join_words(answer_words(p, n)) == "positions"@ + entries_text(p, n),
    decreases n,
{
    if n == 0 {
        assert(answer_words(p, 0) =~= seq!["positions"@]);
        assert("positions"@ + entries_text(p, 0) =~= "positions"@);
    } else {
        lemma_answer_join(p, (n - 1) as nat);
        assert(answer_words(p, n).drop_last() =~= answer_words(p, (n - 1) as nat));
        assert(answer_words(p, n).last() == entry_word((n - 1) as nat, p[n - 1]));
        assert(join_words(answer_words(p, n)) =~= "positions"@ + entries_text(p, n));
    }
}

proof fn lemma_eq_pos_after(a: Seq<char>, b: Seq<char>)
    requires
        forall|k: int| 0 <= k < a.len() ==> #[trigger] a[k] != '=',
    ensures
        eq_pos(a + seq!['='] + b) == Some(a.len() as int),
    decreases a.len(),
{
    if a.len() > 0 {
        let t = a + seq!['='] + b;
        assert(t[0] == a[0]);
        assert(t.drop_first() =~= a.drop_first() + seq!['='] + b);
        assert forall|k: int| 0 <= k < a.drop_first().len() implies #[trigger] a.drop_first()[k] != '=' by {
            assert(a.drop_first()[k] == a[k + 1]);
        }
        lemma_eq_pos_after(a.drop_first(), b);
    }
}

proof fn lemma_entry_of_word(k: nat, v: i32)
    requires
        k <= usize::MAX,
    ensures
        entry_of(entry_word(k, v)) == Ok::<(usize, i32), PositionsFault>((k as usize, v)),
{
    let a = nat_text(k);
    let b = int_text(v as int);
    lemma_nat_text_digits(k);
    lemma_eq_pos_after(a, b);
    let t = entry_word(k, v);
    assert(t.subrange(0, a.len() as int) =~= a);
    assert(t.subrange(a.len() as int + 1, t.len() as int) =~= b);
    lemma_parse_nat_text(k, 0, usize::MAX as int);
    lemma_parse_int_text(v as int, i32::MIN as int, i32::MAX as int);
}

/// The entry words of steppers `lo..hi`.
pub open spec fn entry_words(p: Seq<i32>, lo: nat, hi: nat) -> Seq<Seq<char>> {
    Seq::new((hi - lo) as nat, |j: int| entry_word((lo + j) as nat, p[lo + j]))
}

proof fn lemma_entries_of_words(p: Seq<i32>, lo: nat, hi: nat)
    requires
        lo <= hi <= p.len(),
        hi <= usize::MAX + 1,
    ensures
        entries_of(entry_words(p, lo, hi)) == Ok::<Seq<(usize, i32)>, PositionsFault>(
            Seq::new((hi - lo) as nat, |j: int| (((lo + j) as int) as usize, p[lo + j]))),
    decreases hi - lo,
{
    let ws = entry_words(p, lo, hi);
    if lo == hi {
        assert(ws.len() == 0);
        assert(Seq::new((hi - lo) as nat, |j: int| (((lo + j) as int) as usize, p[lo + j])) =~= Seq::<(usize, i32)>::empty());
    } else {
        lemma_entries_of_words(p, lo + 1, hi);
        assert(ws.drop_first() =~= entry_words(p, lo + 1, hi));
        assert(ws[0] == entry_word(lo, p[lo as int]));
        lemma_entry_of_word(lo, p[lo as int]);
        assert(Seq::new((hi - lo) as nat, |j: int| (((lo + j) as int) as usize, p[lo + j]))
            =~= seq![(lo as usize, p[lo as int])] + Seq::new((hi - (lo + 1)) as nat, |j: int| (((lo + 1 + j) as int) as usize, p[lo + 1 + j])));
    }
}

proof fn lemma_indexed_entries(p: Seq<i32>, n: nat)
    requires
        1 <= n <= p.len(),
        n <= usize::MAX,
    ensures
        ({
            let es = Seq::new(n, |j: int| ((j as int) as usize, p[j]));
            &&& max_index(es) == n - 1
            &&& forall|k: int| 0 <= k < n ==> last_value(es, k) == Some(#[trigger] p[k])
        }),
    decreases n,
{
    let es = Seq::new(n, |j: int| ((j as int) as usize, p[j]));
    assert(es.last() == es[n - 1]);
    assert(es.last().0 == n - 1);
    if n > 1 {
        lemma_indexed_entries(p, (n - 1) as nat);
        let prev = Seq::new((n - 1) as nat, |j: int| ((j as int) as usize, p[j]));
        assert(es.drop_last() =~= prev);
        assert(max_index(es.drop_last()) == n - 2);
        assert forall|k: int| 0 <= k < n implies last_value(es, k) == Some(#[trigger] p[k]) by {
            if k < n - 1 {
                assert(last_value(prev, k) == Some(p[k]));
            }
        }
    } else {
        assert(es.drop_last() =~= Seq::<(usize, i32)>::empty());
        assert(max_index(es.drop_last()) == 0);
        assert(last_value(es, 0) == Some(p[0]));
    }
}

/// The answer the panel writes for positions `p` (at least one) is read back as `p`.
pub proof fn lemma_positions_roundtrip(p: Seq<i32>)
    requires
        1 <= p.len() <= usize::MAX,
    ensures
        positions_answer(positions_text(p)) == Ok::<Seq<i32>, PositionsFault>(p),
{
    let n = p.len();
    reveal_strlit("positions");
    lemma_literal_word("positions"@);
    let toks = answer_words(p, n);
    lemma_answer_join(p, n);
    let body = "positions"@ + entries_text(p, n);
    assert forall|k: int| 0 <= k < toks.len() implies (#[trigger] toks[k]).len() > 0 && no_ws(toks[k]) by {
        if k > 0 {
            let w = entry_word((k - 1) as nat, p[k - 1]);
            assert(toks[k] == w);
            lemma_nat_text_word((k - 1) as nat);
            lemma_int_text_word(p[k - 1] as int);
            let a = nat_text((k - 1) as nat);
            assert forall|j: int| 0 <= j < w.len() implies !is_ws(#[trigger] w[j]) by {
                if j < a.len() {
                    assert(w[j] == a[j]);
                } else if j > a.len() {
                    assert(w[j] == int_text(p[k - 1] as int)[j - a.len() - 1]);
                }
            }
        }
    }
    lemma_words_of_join(toks);
    let lastw = entry_word((n - 1) as nat, p[n - 1]);
    lemma_int_text_word(p[n - 1] as int);
    assert(toks.last() == lastw);
    assert(join_words(toks) == join_words(toks.drop_last()) + seq![' '] + lastw);
    assert(body.last() == int_text(p[n - 1] as int).last());
    assert(body[0] == "positions"@[0]);
    lemma_trim_plain(body);
    assert(positions_text(p) == body.push('\n'));
    assert(words(trim(positions_text(p))) == toks);
    assert(toks.drop_first() =~= entry_words(p, 0, n));
    lemma_entries_of_words(p, 0, n);
    let es = Seq::new(n, |j: int| ((j as int) as usize, p[j]));
    assert(Seq::new((n - 0) as nat, |j: int| (((0 + j) as int) as usize, p[0 + j])) =~= es);
    lemma_indexed_entries(p, n);
    assert(positions_of_entries(es) =~= p);
}

} // verus!
