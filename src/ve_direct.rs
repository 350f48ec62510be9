//! The VE.Direct text protocol decoder.
//!
//! A block is a run of records `\r\n<label>\t<value>` closed by the record
//! `\r\nChecksum\t<byte>`, where the byte makes the sum of all bytes of the
//! block zero modulo 256. A `:` inside a block starts a hex record that runs to
//! the next `\n` and is left out of the sum.
//!
//! The bytes of a block stay in the buffer until the block is complete, and
//! each call reads the block again from its start; so between calls the decoder
//! is either unsynchronised or at the start of a block.
use crate::buffer::{buffer_advance, buffer_bytes, buffer_contents};
use crate::mk3::byte_sum;
use crate::mppt::{apply, apply_record, empty_frame, label_from, label_of, utf8_text, Label, MpptFrame, MpptFrameView};
use bytes::BytesMut;
use vstd::prelude::*;
use vstd::utf8::valid_utf8;

verus! {

pub const CR: u8 = 0x0d;
pub const LF: u8 = 0x0a;
pub const TAB: u8 = 0x09;
pub const COLON: u8 = 0x3a;

/// Longest label, in bytes.
pub const LABEL_MAX: usize = 9;

/// Longest value, in bytes.
pub const VALUE_MAX: usize = 33;

/// Where the decoder stands between calls.
#[derive(Clone, Copy, Debug, PartialEq, Eq, Structural)]
pub enum State {
    /// Looking for the `\r\n` that starts a block.
    Unsynchronized,
    /// At the `\r\n` that starts a block.
    Crlf,
}

/// Result of looking for the end of a label or a value.
pub enum Scan {
    /// The delimiter is at this index.
    Found(nat),
    /// No delimiter within the length limit.
    TooLong,
    /// The buffer ends before the question is settled.
    NeedMore,
}

/// What one call does with the buffered bytes.
pub enum TextOutcome {
    /// The block `start..end` is complete and its checksum holds.
    Emit { frame: MpptFrameView, start: nat, end: nat },
    /// The block that starts at `start` is not complete yet.
    Incomplete { start: nat },
    /// No block starts in the buffer; the bytes before `keep` can go.
    Unsynced { keep: nat },
}

/// ASCII upper case of a byte.
pub open spec fn upper_byte(c: u8) -> u8 {
    if 0x61 <= c <= 0x7a {
        (c - 0x20) as u8
    } else {
        c
    }
}

/// ASCII upper case of a byte string.
pub open spec fn upper(s: Seq<u8>) -> Seq<u8> {
    s.map_values(|c: u8| upper_byte(c))
}

/// The first `k >= i` where `\r\n` starts.
pub open spec fn find_crlf(b: Seq<u8>, i: nat) -> Option<nat>
    decreases b.len() - i,
{
    if i + 1 >= b.len() {
        None
    } else if b[i as int] == CR && b[i as int + 1] == LF {
        Some(i)
    } else {
        find_crlf(b, i + 1)
    }
}

/// The first `k >= i` holding `\n`.
pub open spec fn find_lf(b: Seq<u8>, i: nat) -> Option<nat>
    decreases b.len() - i,
{
    if i >= b.len() {
        None
    } else if b[i as int] == LF {
        Some(i)
    } else {
        find_lf(b, i + 1)
    }
}

/// End of a label that starts at `start`: a tab, or a `:` that starts a hex
/// record, at most [`LABEL_MAX`] bytes on.
pub open spec fn scan_label(b: Seq<u8>, start: nat, i: nat) -> Scan
    decreases b.len() - i,
{
    if i > start + LABEL_MAX {
        Scan::TooLong
    } else if i >= b.len() {
        Scan::NeedMore
    } else if b[i as int] == TAB || b[i as int] == COLON {
        Scan::Found(i)
    } else {
        scan_label(b, start, i + 1)
    }
}

/// End of a value that starts at `start`: a `\r\n`, or a `:` that starts a hex
/// record, at most [`VALUE_MAX`] bytes on.
pub open spec fn scan_value(b: Seq<u8>, start: nat, i: nat) -> Scan
    decreases b.len() - i,
{
    if i > start + VALUE_MAX {
        Scan::TooLong
    } else if i >= b.len() {
        Scan::NeedMore
    } else if b[i as int] == COLON {
        Scan::Found(i)
    } else if b[i as int] == CR {
        if i + 1 >= b.len() {
            Scan::NeedMore
        } else if b[i as int + 1] == LF {
            Scan::Found(i)
        } else {
            scan_value(b, start, i + 1)
        }
    } else {
        scan_value(b, start, i + 1)
    }
}

/// How much of an unsynchronised buffer can go: all of it but a final `\r`,
/// which may start the next block.
pub open spec fn unsynced_keep(b: Seq<u8>, p: nat) -> nat {
    if b.len() > p && b.last() == CR {
        (b.len() - 1) as nat
    } else {
        b.len()
    }
}

/// Looks for a block from `p` on.
pub open spec fn resync(b: Seq<u8>, p: nat) -> TextOutcome
    decreases b.len() - p, 1int,
{
    match find_crlf(b, p) {
        None => TextOutcome::Unsynced { keep: unsynced_keep(b, p) },
        Some(k) => {
            proof {
                lemma_find_crlf(b, p);
            }
            block(b, k, k, 0, empty_frame())
        },
    }
}

/// Reads the block that started at `start`, at the record whose `\r\n` is due
/// at `p`, with checksum `c` so far and fields `f`.
pub open spec fn block(b: Seq<u8>, start: nat, p: nat, c: int, f: MpptFrameView) -> TextOutcome
    decreases b.len() - p, 0int,
{
    if p + 2 > b.len() {
        TextOutcome::Incomplete { start }
    } else if !(b[p as int] == CR && b[p as int + 1] == LF) {
        resync(b, p + 1)
    } else {
        let ls = p + 2;
        proof {
            lemma_scan_label(b, ls, ls);
        }
        match scan_label(b, ls, ls) {
            Scan::NeedMore => TextOutcome::Incomplete { start },
            Scan::TooLong => resync(b, ls),
            Scan::Found(t) => after_label(b, start, ls, t, (c + CR + LF) % 256, f),
        }
    }
}

/// Goes on after the label `b[ls..t]`, which ends at a tab or a `:`; `c` is the
/// checksum before the label.
pub open spec fn after_label(b: Seq<u8>, start: nat, ls: nat, t: nat, c: int, f: MpptFrameView) -> TextOutcome
    decreases b.len() - t, 2int,
{
    if t >= b.len() || ls > t {
        TextOutcome::Incomplete { start }
    } else {
        let label = b.subrange(ls as int, t as int);
        let c2 = (c + byte_sum(label)) % 256;
        if b[t as int] == COLON {
            skip_hex(b, start, t, c2, f)
        } else {
            let c3 = (c2 + TAB) % 256;
            match label_of(upper(label)) {
                None => resync(b, t + 1),
                Some(Label::Checksum) => if t + 1 >= b.len() {
                    TextOutcome::Incomplete { start }
                } else if (c3 + b[t as int + 1]) % 256 == 0 {
                    TextOutcome::Emit { frame: f, start, end: t + 2 }
                } else {
                    resync(b, t + 2)
                },
                Some(l) => record_value(b, start, t, c3, f, l),
            }
        }
    }
}

/// Reads the value of the record with label `l` whose tab is at `t`; `c` is the
/// checksum up to and including the tab.
pub open spec fn record_value(b: Seq<u8>, start: nat, t: nat, c: int, f: MpptFrameView, l: Label) -> TextOutcome
    decreases b.len() - t, 1int,
{
    proof {
        lemma_scan_value(b, t + 1, t + 1);
    }
    match scan_value(b, t + 1, t + 1) {
        Scan::NeedMore => TextOutcome::Incomplete { start },
        Scan::TooLong => resync(b, t + 1),
        Scan::Found(e) => {
            let v = b.subrange(t as int + 1, e as int);
            let c4 = (c + byte_sum(v)) % 256;
            if b[e as int] == COLON {
                skip_hex(b, start, e, c4, f)
            } else if !valid_utf8(v) {
                resync(b, e)
            } else {
                block(b, start, e, c4, apply_record(f, l, v))
            }
        },
    }
}

/// Skips the hex record that starts at `j`; the block goes on after its `\n`.
pub open spec fn skip_hex(b: Seq<u8>, start: nat, j: nat, c: int, f: MpptFrameView) -> TextOutcome
    decreases b.len() - j, 1int,
{
    match find_lf(b, j) {
        None => TextOutcome::Incomplete { start },
        Some(h) => {
            proof {
                lemma_find_lf(b, j);
            }
            block(b, start, h + 1, c, f)
        },
    }
}

/// What a call does with the buffered bytes `b` from state `state`.
pub open spec fn text_outcome(state: State, b: Seq<u8>) -> TextOutcome {
    match state {
        State::Unsynchronized => resync(b, 0),
        State::Crlf => block(b, 0, 0, 0, empty_frame()),
    }
}

/// One call on the buffered bytes `b`: the frame emitted (stamped with `now`),
/// how many bytes are consumed, and the state afterwards.
pub open spec fn text_decode(state: State, b: Seq<u8>, now: u64) -> (Option<MpptFrameView>, nat, State) {
    match text_outcome(state, b) {
        TextOutcome::Emit { frame, end, .. } => (
            Some(MpptFrameView { timestamp: Some(now), ..frame }),
            end,
            State::Crlf,
        ),
        TextOutcome::Incomplete { start } => (None, start, State::Crlf),
        TextOutcome::Unsynced { keep } => (None, keep, State::Unsynchronized),
    }
}


pub proof fn lemma_find_crlf(b: Seq<u8>, i: nat)
    ensures
        find_crlf(b, i) matches Some(k) ==> i <= k && k + 1 < b.len() && b[k as int] == CR && b[k as int + 1] == LF,
        forall|k: int| i <= k < b.len() - 1 && (find_crlf(b, i) matches Some(j) ==> k < j) ==> !(
        #[trigger] b[k] == CR && b[k + 1] == LF),
    decreases b.len() - i,
{
    if i + 1 < b.len() && !(b[i as int] == CR && b[i as int + 1] == LF) {
        lemma_find_crlf(b, i + 1);
    }
}

pub proof fn lemma_find_lf(b: Seq<u8>, i: nat)
    ensures
        find_lf(b, i) matches Some(h) ==> i <= h < b.len() && b[h as int] == LF,
    decreases b.len() - i,
{
    if i < b.len() && b[i as int] != LF {
        lemma_find_lf(b, i + 1);
    }
}

pub proof fn lemma_scan_label(b: Seq<u8>, start: nat, i: nat)
    ensures
        scan_label(b, start, i) matches Scan::Found(t) ==> i <= t < b.len() && t <= start
            + LABEL_MAX && (b[t as int] == TAB || b[t as int] == COLON),
    decreases b.len() - i,
{
    if i <= start + LABEL_MAX && i < b.len() && !(b[i as int] == TAB || b[i as int] == COLON) {
        lemma_scan_label(b, start, i + 1);
    }
}

pub proof fn lemma_scan_value(b: Seq<u8>, start: nat, i: nat)
    ensures
        scan_value(b, start, i) matches Scan::Found(e) ==> i <= e < b.len() && e <= start
            + VALUE_MAX && (b[e as int] == COLON || (e + 1 < b.len() && b[e as int] == CR && b[e as int + 1] == LF)),
    decreases b.len() - i,
{
    if i <= start + VALUE_MAX && i < b.len() && b[i as int] != COLON {
        if b[i as int] == CR {
            if i + 1 < b.len() && b[i as int + 1] != LF {
                lemma_scan_value(b, start, i + 1);
            }
        } else {
            lemma_scan_value(b, start, i + 1);
        }
    }
}


/// Where the search for the end of a label or a value ended.
enum Delimiter {
    Found(usize),
    TooLong,
    NeedMore,
}

spec fn delimiter_is(d: Delimiter, s: Scan) -> bool {
    match d {
        Delimiter::Found(i) => s == Scan::Found(i as nat),
        Delimiter::TooLong => s == Scan::TooLong,
        Delimiter::NeedMore => s == Scan::NeedMore,
    }
}

fn find_crlf_from(b: &[u8], p: usize) -> (r: Option<usize>)
    ensures
        r matches Some(k) ==> find_crlf(b@, p as nat) == Some(k as nat),
        r is None ==> find_crlf(b@, p as nat) is None,
{
    let mut i: usize = p;
    while i < b.len() && b.len() - i >= 2
        invariant
            p <= i,
            find_crlf(b@, i as nat) == find_crlf(b@, p as nat),
        decreases b@.len() - i,
    {
        if b[i] == CR && b[i + 1] == LF {
            return Some(i);
        }
        i = i + 1;
    }
    None
}

fn find_lf_from(b: &[u8], p: usize) -> (r: Option<usize>)
    ensures
        r matches Some(k) ==> find_lf(b@, p as nat) == Some(k as nat),
        r is None ==> find_lf(b@, p as nat) is None,
{
    let mut i: usize = p;
    while i < b.len()
        invariant
            p <= i,
            find_lf(b@, i as nat) == find_lf(b@, p as nat),
        decreases b@.len() - i,
    {
        if b[i] == LF {
            return Some(i);
        }
        i = i + 1;
    }
    None
}

fn scan_label_from(b: &[u8], start: usize) -> (r: Delimiter)
    requires
        start <= b@.len(),
    ensures
        delimiter_is(r, scan_label(b@, start as nat, start as nat)),
{
    let mut i: usize = start;
    while i < b.len()
        invariant
            start <= i <= b@.len(),
            i <= start + LABEL_MAX + 1,
            scan_label(b@, start as nat, i as nat) == scan_label(b@, start as nat, start as nat),
        decreases b@.len() - i,
    {
        if i - start > LABEL_MAX {
            return Delimiter::TooLong;
        }
        if b[i] == TAB || b[i] == COLON {
            return Delimiter::Found(i);
        }
        i = i + 1;
    }
    if i - start > LABEL_MAX {
        Delimiter::TooLong
    } else {
        Delimiter::NeedMore
    }
}

fn scan_value_from(b: &[u8], start: usize) -> (r: Delimiter)
    requires
        start <= b@.len(),
    ensures
        delimiter_is(r, scan_value(b@, start as nat, start as nat)),
{
    let mut i: usize = start;
    while i < b.len()
        invariant
            start <= i <= b@.len(),
            i <= start + VALUE_MAX + 1,
            scan_value(b@, start as nat, i as nat) == scan_value(b@, start as nat, start as nat),
        decreases b@.len() - i,
    {
        if i - start > VALUE_MAX {
            return Delimiter::TooLong;
        }
        if b[i] == COLON {
            return Delimiter::Found(i);
        }
        if b[i] == CR {
            if i + 1 >= b.len() {
                return Delimiter::NeedMore;
            }
            if b[i + 1] == LF {
                return Delimiter::Found(i);
            }
        }
        i = i + 1;
    }
    if i - start > VALUE_MAX {
        Delimiter::TooLong
    } else {
        Delimiter::NeedMore
    }
}

/// ASCII upper case of a byte.
pub fn to_upper(c: u8) -> (r: u8)
    ensures
        r == upper_byte(c),
{
    if c >= 0x61 && c <= 0x7a {
        c - 0x20
    } else {
        c
    }
}

fn upper_range(b: &[u8], from: usize, to: usize) -> (r: Vec<u8>)
    requires
        from <= to <= b@.len(),
    ensures
        r@ == upper(b@.subrange(from as int, to as int)),
{
    let mut r: Vec<u8> = Vec::new();
    let mut i: usize = from;
    while i < to
        invariant
            from <= i <= to <= b@.len(),
            r@ == upper(b@.subrange(from as int, i as int)),
        decreases to - i,
    {
        r.push(to_upper(b[i]));
        i = i + 1;
        assert(r@ =~= upper(b@.subrange(from as int, i as int)));
    }
    r
}

/// `(c + byte_sum(b[from..to])) % 256`.
fn sum_range(b: &[u8], from: usize, to: usize, c: u8) -> (r: u8)
    requires
        from <= to <= b@.len(),
    ensures
        r == (c + byte_sum(b@.subrange(from as int, to as int))) % 256,
{
    let mut r: u8 = c;
    let mut i: usize = from;
    while i < to
        invariant
            from <= i <= to <= b@.len(),
            r == (c + byte_sum(b@.subrange(from as int, i as int))) % 256,
        decreases to - i,
    {
        let ghost prev = b@.subrange(from as int, i as int);
        assert(b@.subrange(from as int, i + 1).drop_last() == prev);
        proof {
            lemma_sum_step(c as int, byte_sum(prev), b@[i as int]);
        }
        r = r.wrapping_add(b[i]);
        i = i + 1;
    }
    r
}


proof fn lemma_sum_step(c: int, x: int, y: u8)
    ensures
        ((c + x) % 256 + y) % 256 == (c + (x + y) % 256) % 256,
{
    vstd::arithmetic::div_mod::lemma_add_mod_noop(c + x, y as int, 256);
    vstd::arithmetic::div_mod::lemma_add_mod_noop(c, x + y, 256);
    vstd::arithmetic::div_mod::lemma_mod_twice(y as int, 256);
    vstd::arithmetic::div_mod::lemma_mod_twice(c, 256);
    assert((c + x + y) % 256 == (c + (x + y)) % 256);
    vstd::arithmetic::div_mod::lemma_add_mod_noop(c, x + y, 256);
    vstd::arithmetic::div_mod::lemma_mod_twice(x + y, 256);
}


/// What a call does with the buffered bytes: the frame emitted, how many bytes
/// are consumed, and the state afterwards.
pub open spec fn decoded(r: (Option<MpptFrame>, usize, State), o: TextOutcome) -> bool {
    match o {
        TextOutcome::Emit { frame, end, .. } => r.0 matches Some(f) && f@ == frame && r.1 == end
            && r.2 == State::Crlf,
        TextOutcome::Incomplete { start } => r.0 is None && r.1 == start && r.2 == State::Crlf,
        TextOutcome::Unsynced { keep } => r.0 is None && r.1 == keep && r.2
            == State::Unsynchronized,
    }
}

/// What reading one record of a block leads to.
enum Step {
    /// The call ends with this result.
    Done(Option<MpptFrame>, usize, State),
    /// Look for a block from this index on.
    Resync(usize),
    /// The block goes on at this index, with this checksum and these fields.
    Next(usize, u8, MpptFrame),
}

/// Reads the record of the block that started at `start` whose `\r\n` is due at
/// `p`.
fn block_step(b: &[u8], start: usize, p: usize, c: u8, frame: MpptFrame) -> (r: Step)
    requires
        start <= p <= b@.len(),
    ensures
        match r {
            Step::Done(f, n, s) => decoded((f, n, s), block(b@, start as nat, p as nat, c as int, frame@)),
            Step::Resync(q) => p < q <= b@.len() && block(b@, start as nat, p as nat, c as int, frame@)
                == resync(b@, q as nat),
            Step::Next(q, c2, f2) => p < q <= b@.len() && block(b@, start as nat, p as nat, c as int, frame@)
                == block(b@, start as nat, q as nat, c2 as int, f2@),
        },
{
    if b.len() - p < 2 {
        return Step::Done(None, start, State::Crlf);
    }
    if !(b[p] == CR && b[p + 1] == LF) {
        return Step::Resync(p + 1);
    }
    let ls = p + 2;
    let c1 = ((c as u16 + 0x17) % 256) as u8;
    assert(c1 == (c + CR + LF) % 256);
    proof {
        lemma_scan_label(b@, ls as nat, ls as nat);
    }
    match scan_label_from(b, ls) {
        Delimiter::NeedMore => Step::Done(None, start, State::Crlf),
        Delimiter::TooLong => Step::Resync(ls),
        Delimiter::Found(t) => label_step(b, start, ls, t, c1, frame),
    }
}

/// Goes on after the label `b[ls..t]`; `c` is the checksum before the label.
fn label_step(b: &[u8], start: usize, ls: usize, t: usize, c: u8, frame: MpptFrame) -> (r: Step)
    requires
        start < ls <= t < b@.len(),
    ensures
        match r {
            Step::Done(f, n, s) => decoded((f, n, s), after_label(b@, start as nat, ls as nat, t as nat, c as int, frame@)),
            Step::Resync(q) => t < q <= b@.len() && after_label(b@, start as nat, ls as nat, t as nat, c as int, frame@)
                == resync(b@, q as nat),
            Step::Next(q, c2, f2) => t < q <= b@.len() && after_label(b@, start as nat, ls as nat, t as nat, c as int, frame@)
                == block(b@, start as nat, q as nat, c2 as int, f2@),
        },
{
    let c2 = sum_range(b, ls, t, c);
    if b[t] == COLON {
        proof {
            lemma_find_lf(b@, t as nat);
        }
        return match find_lf_from(b, t) {
            None => Step::Done(None, start, State::Crlf),
            Some(h) => Step::Next(h + 1, c2, frame),
        };
    }
    let c3 = ((c2 as u16 + 0x09) % 256) as u8;
    let u = upper_range(b, ls, t);
    match label_from(u.as_slice()) {
        None => Step::Resync(t + 1),
        Some(Label::Checksum) => {
            if t + 1 >= b.len() {
                Step::Done(None, start, State::Crlf)
            } else if (c3 as u16 + b[t + 1] as u16) % 256 == 0 {
                Step::Done(Some(frame), t + 2, State::Crlf)
            } else {
                Step::Resync(t + 2)
            }
        },
        Some(l) => value_step(b, start, t, c3, frame, l),
    }
}

/// Reads the value of the record with label `l` whose tab is at `t`.
fn value_step(b: &[u8], start: usize, t: usize, c: u8, frame: MpptFrame, l: Label) -> (r: Step)
    requires
        start < t < b@.len(),
    ensures
        match r {
            Step::Done(f, n, s) => decoded((f, n, s), record_value(b@, start as nat, t as nat, c as int, frame@, l)),
            Step::Resync(q) => t < q <= b@.len() && record_value(b@, start as nat, t as nat, c as int, frame@, l)
                == resync(b@, q as nat),
            Step::Next(q, c2, f2) => t < q <= b@.len() && record_value(b@, start as nat, t as nat, c as int, frame@, l)
                == block(b@, start as nat, q as nat, c2 as int, f2@),
        },
{
    let n = b.len();
    assert(t < n);
    proof {
        lemma_scan_value(b@, (t + 1) as nat, (t + 1) as nat);
    }
    let e = match scan_value_from(b, t + 1) {
        Delimiter::NeedMore => {
            return Step::Done(None, start, State::Crlf);
        },
        Delimiter::TooLong => {
            return Step::Resync(t + 1);
        },
        Delimiter::Found(e) => e,
    };
    let c4 = sum_range(b, t + 1, e, c);
    if b[e] == COLON {
        proof {
            lemma_find_lf(b@, e as nat);
        }
        return match find_lf_from(b, e) {
            None => Step::Done(None, start, State::Crlf),
            Some(h) => Step::Next(h + 1, c4, frame),
        };
    }
    let v = vstd::slice::slice_subrange(b, t + 1, e);
    if utf8_text(v).is_none() {
        return Step::Resync(e);
    }
    let mut frame = frame;
    apply(&mut frame, l, v);
    Step::Next(e, c4, frame)
}

/// Runs the decoder over the buffered bytes `b` from state `state`.
pub fn decode_bytes(state: State, b: &[u8]) -> (r: (Option<MpptFrame>, usize, State))
    ensures
        decoded(r, text_outcome(state, b@)),
{
    let ghost goal = text_outcome(state, b@);
    let mut resyncing: bool = state == State::Unsynchronized;
    let mut p: usize = 0;
    let mut start: usize = 0;
    let mut c: u8 = 0;
    let mut frame = MpptFrame::default();
    loop
        invariant
            goal == text_outcome(state, b@),
            p <= b@.len(),
            start <= p,
            resyncing ==> resync(b@, p as nat) == goal,
            !resyncing ==> block(b@, start as nat, p as nat, c as int, frame@) == goal,
        decreases 2 * (b@.len() - p) + if resyncing {
            1int
        } else {
            0int
        },
    {
        if resyncing {
            proof {
                lemma_find_crlf(b@, p as nat);
            }
            match find_crlf_from(b, p) {
                None => {
                    let keep = if b.len() > p && b[b.len() - 1] == CR {
                        b.len() - 1
                    } else {
                        b.len()
                    };
                    return (None, keep, State::Unsynchronized);
                },
                Some(k) => {
                    start = k;
                    p = k;
                    c = 0;
                    frame = MpptFrame::default();
                    resyncing = false;
                },
            }
        } else {
            match block_step(b, start, p, c, frame) {
                Step::Done(f, n, s) => {
                    return (f, n, s);
                },
                Step::Resync(q) => {
                    resyncing = true;
                    p = q;
                    frame = MpptFrame::default();
                },
                Step::Next(q, c2, f2) => {
                    p = q;
                    c = c2;
                    frame = f2;
                },
            }
        }
    }
}


/// Decoder of the VE.Direct text protocol for a charge controller.
pub struct VeDirectMpptDecoder {
    state: State,
}

impl VeDirectMpptDecoder {
    /// Where the decoder stands.
    pub closed spec fn spec_state(&self) -> State {
        self.state
    }

    /// A decoder that still has to find a block.
    pub fn new() -> (r: Self)
        ensures
            r.spec_state() == State::Unsynchronized,
    {
        VeDirectMpptDecoder { state: State::Unsynchronized }
    }

    pub fn state(&self) -> (r: State)
        ensures
            r == self.spec_state(),
    {
        self.state
    }

    /// Decodes at most one frame from the front of `src`, stamped with
    /// `timestamp` (milliseconds since the Unix epoch), and drops the bytes it
    /// has dealt with: an emitted block and what preceded it, or bytes that
    /// cannot start a block. An incomplete block stays in `src`.
    pub fn decode(&mut self, src: &mut BytesMut, timestamp: u64) -> (r: Option<MpptFrame>)
        ensures
            ({
                let (frame, consumed, state) = text_decode(
                    old(self).spec_state(),
                    buffer_bytes(*old(src)),
                    timestamp,
                );
                &&& match r {
                    Some(f) => frame == Some(f@),
                    None => frame is None,
                }
                &&& buffer_bytes(*final(src)) == buffer_bytes(*old(src)).skip(consumed as int)
                &&& final(self).spec_state() == state
            }),
    {
        let data = buffer_contents(src);
        let ghost outcome = text_outcome(self.state, data@);
        proof {
            lemma_outcome_bounds(self.state, data@);
        }
        let (frame, consumed, state) = decode_bytes(self.state, data.as_slice());
        buffer_advance(src, consumed);
        self.state = state;
        match frame {
            Some(f) => {
                let mut f = f;
                f.timestamp = Some(timestamp);
                Some(f)
            },
            None => None,
        }
    }
}

impl Default for VeDirectMpptDecoder {
    fn default() -> (r: Self)
        ensures
            r.spec_state() == State::Unsynchronized,
    {
        VeDirectMpptDecoder::new()
    }
}

/// Every outcome consumes at most the buffered bytes, and an emitted block
/// lies inside the buffer.
pub open spec fn outcome_within(o: TextOutcome, len: nat) -> bool {
    match o {
        TextOutcome::Emit { start, end, .. } => start < end <= len,
        TextOutcome::Incomplete { start } => start <= len,
        TextOutcome::Unsynced { keep } => keep <= len,
    }
}

/// The block that an outcome names starts at or after `lo`.
pub open spec fn starts_from(o: TextOutcome, lo: nat) -> bool {
    match o {
        TextOutcome::Emit { start, .. } => start >= lo,
        TextOutcome::Incomplete { start } => start >= lo,
        TextOutcome::Unsynced { .. } => true,
    }
}

/// The block that an outcome names is `st`, or one that starts after `p`; an
/// emitted block `st` ends after `p + 1`.
pub open spec fn same_or_later_block(o: TextOutcome, st: nat, p: nat) -> bool {
    match o {
        TextOutcome::Emit { start, end, .. } => (start == st && end > p + 1) || start > p,
        TextOutcome::Incomplete { start } => start == st || start > p,
        TextOutcome::Unsynced { .. } => true,
    }
}

proof fn lemma_resync_bounds(b: Seq<u8>, p: nat)
    requires
        p <= b.len(),
    ensures
        outcome_within(resync(b, p), b.len()),
        starts_from(resync(b, p), p),
    decreases b.len() - p, 1int,
{
    lemma_find_crlf(b, p);
    if let Some(k) = find_crlf(b, p) {
        lemma_block_bounds(b, k, k, 0, empty_frame());
    }
}

proof fn lemma_block_bounds(b: Seq<u8>, start: nat, p: nat, c: int, f: MpptFrameView)
    requires
        start <= p <= b.len(),
    ensures
        outcome_within(block(b, start, p, c, f), b.len()),
        same_or_later_block(block(b, start, p, c, f), start, p),
    decreases b.len() - p, 0int,
{
    if p + 2 <= b.len() {
        if !(b[p as int] == CR && b[p as int + 1] == LF) {
            lemma_resync_bounds(b, p + 1);
        } else {
            let ls = p + 2;
            lemma_scan_label(b, ls, ls);
            match scan_label(b, ls, ls) {
                Scan::NeedMore => {},
                Scan::TooLong => lemma_resync_bounds(b, ls),
                Scan::Found(t) => lemma_after_label_bounds(b, start, ls, t, (c + CR + LF) % 256, f),
            }
        }
    }
}

proof fn lemma_after_label_bounds(b: Seq<u8>, start: nat, ls: nat, t: nat, c: int, f: MpptFrameView)
    requires
        start < ls <= b.len(),
    ensures
        outcome_within(after_label(b, start, ls, t, c, f), b.len()),
        same_or_later_block(after_label(b, start, ls, t, c, f), start, t),
    decreases b.len() - t, 2int,
{
    if t < b.len() && ls <= t {
        let label = b.subrange(ls as int, t as int);
        let c2 = (c + byte_sum(label)) % 256;
        if b[t as int] == COLON {
            lemma_skip_hex_bounds(b, start, t, c2, f);
        } else {
            let c3 = (c2 + TAB) % 256;
            match label_of(upper(label)) {
                None => lemma_resync_bounds(b, t + 1),
                Some(Label::Checksum) => {
                    if t + 1 < b.len() && (c3 + b[t as int + 1]) % 256 != 0 {
                        lemma_resync_bounds(b, t + 2);
                    }
                },
                Some(l) => lemma_record_value_bounds(b, start, t, c3, f, l),
            }
        }
    }
}

proof fn lemma_record_value_bounds(b: Seq<u8>, start: nat, t: nat, c: int, f: MpptFrameView, l: Label)
    requires
        start <= t < b.len(),
    ensures
        outcome_within(record_value(b, start, t, c, f, l), b.len()),
        same_or_later_block(record_value(b, start, t, c, f, l), start, t),
    decreases b.len() - t, 1int,
{
    lemma_scan_value(b, t + 1, t + 1);
    match scan_value(b, t + 1, t + 1) {
        Scan::NeedMore => {},
        Scan::TooLong => lemma_resync_bounds(b, t + 1),
        Scan::Found(e) => {
            let v = b.subrange(t as int + 1, e as int);
            let c4 = (c + byte_sum(v)) % 256;
            if b[e as int] == COLON {
                lemma_skip_hex_bounds(b, start, e, c4, f);
            } else if !valid_utf8(v) {
                lemma_resync_bounds(b, e);
            } else {
                lemma_block_bounds(b, start, e, c4, apply_record(f, l, v));
            }
        },
    }
}

proof fn lemma_skip_hex_bounds(b: Seq<u8>, start: nat, j: nat, c: int, f: MpptFrameView)
    requires
        start <= j < b.len(),
    ensures
        outcome_within(skip_hex(b, start, j, c, f), b.len()),
        same_or_later_block(skip_hex(b, start, j, c, f), start, j),
    decreases b.len() - j, 1int,
{
    lemma_find_lf(b, j);
    if let Some(h) = find_lf(b, j) {
        lemma_block_bounds(b, start, h + 1, c, f);
    }
}

proof fn lemma_outcome_bounds(state: State, b: Seq<u8>)
    ensures
        outcome_within(text_outcome(state, b), b.len()),
{
    match state {
        State::Unsynchronized => lemma_resync_bounds(b, 0),
        State::Crlf => lemma_block_bounds(b, 0, 0, 0, empty_frame()),
    }
}


proof fn lemma_find_lf_prefix(b: Seq<u8>, m: nat, i: nat)
    requires
        m <= b.len(),
        find_lf(b, i) is Some,
    ensures
        find_lf(b.take(m as int), i) == (if find_lf(b, i)->0 < m {
            find_lf(b, i)
        } else {
            None
        }),
    decreases b.len() - i,
{
    if i < b.len() && b[i as int] != LF {
        lemma_find_lf_prefix(b, m, i + 1);
    }
}

proof fn lemma_scan_label_prefix(b: Seq<u8>, m: nat, start: nat, i: nat)
    requires
        m <= b.len(),
        scan_label(b, start, i) is Found,
    ensures
        scan_label(b.take(m as int), start, i) == (if scan_label(b, start, i)->0 < m {
            scan_label(b, start, i)
        } else {
            Scan::NeedMore
        }),
    decreases b.len() - i,
{
    if i <= start + LABEL_MAX && i < b.len() && !(b[i as int] == TAB || b[i as int] == COLON) {
        lemma_scan_label_prefix(b, m, start, i + 1);
    }
}

proof fn lemma_scan_value_prefix(b: Seq<u8>, m: nat, start: nat, i: nat)
    requires
        m <= b.len(),
        scan_value(b, start, i) is Found,
    ensures
        ({
            let e = scan_value(b, start, i)->0;
            scan_value(b.take(m as int), start, i) == (if (b[e as int] == COLON && e < m) || (
            b[e as int] != COLON && e + 1 < m) {
                scan_value(b, start, i)
            } else {
                Scan::NeedMore
            })
        }),
    decreases b.len() - i,
{
    lemma_scan_value(b, start, i);
    if i <= start + VALUE_MAX && i < b.len() && b[i as int] != COLON {
        if b[i as int] == CR {
            if i + 1 < b.len() && b[i as int + 1] != LF {
                lemma_scan_value_prefix(b, m, start, i + 1);
            }
        } else {
            lemma_scan_value_prefix(b, m, start, i + 1);
        }
    }
}

proof fn lemma_block_prefix(b: Seq<u8>, m: nat, start: nat, p: nat, c: int, f: MpptFrameView)
    requires
        start <= p <= b.len(),
        block(b, start, p, c, f) matches TextOutcome::Emit { start: s, end, .. } && s == start
            && m < end,
    ensures
        block(b.take(m as int), start, p, c, f) == (TextOutcome::Incomplete { start }),
    decreases b.len() - p, 0int,
{
    lemma_block_bounds(b, start, p, c, f);
    if !(b[p as int] == CR && b[p as int + 1] == LF) {
        lemma_resync_bounds(b, p + 1);
        return ;
    }
    if p + 2 > m {
        return ;
    }
    let ls = p + 2;
    lemma_scan_label(b, ls, ls);
    match scan_label(b, ls, ls) {
        Scan::NeedMore => {},
        Scan::TooLong => lemma_resync_bounds(b, ls),
        Scan::Found(t) => {
            lemma_scan_label_prefix(b, m, ls, ls);
            if t < m {
                lemma_after_label_prefix(b, m, start, ls, t, (c + CR + LF) % 256, f);
            }
        },
    }
}

proof fn lemma_after_label_prefix(b: Seq<u8>, m: nat, start: nat, ls: nat, t: nat, c: int, f: MpptFrameView)
    requires
        start < ls <= t < m <= b.len(),
        after_label(b, start, ls, t, c, f) matches TextOutcome::Emit { start: s, end, .. } && s
            == start && m < end,
    ensures
        after_label(b.take(m as int), start, ls, t, c, f) == (TextOutcome::Incomplete { start }),
    decreases b.len() - t, 2int,
{
    let b2 = b.take(m as int);
    lemma_after_label_bounds(b, start, ls, t, c, f);
    let label = b.subrange(ls as int, t as int);
    assert(b2.subrange(ls as int, t as int) == label);
    let c2 = (c + byte_sum(label)) % 256;
    if b[t as int] == COLON {
        lemma_skip_hex_prefix(b, m, start, t, c2, f);
    } else {
        let c3 = (c2 + TAB) % 256;
        match label_of(upper(label)) {
            None => lemma_resync_bounds(b, t + 1),
            Some(Label::Checksum) => {
                if t + 1 < b.len() && (c3 + b[t as int + 1]) % 256 != 0 {
                    lemma_resync_bounds(b, t + 2);
                }
            },
            Some(l) => lemma_record_value_prefix(b, m, start, t, c3, f, l),
        }
    }
}

proof fn lemma_record_value_prefix(b: Seq<u8>, m: nat, start: nat, t: nat, c: int, f: MpptFrameView, l: Label)
    requires
        start < t < m <= b.len(),
        record_value(b, start, t, c, f, l) matches TextOutcome::Emit { start: s, end, .. } && s
            == start && m < end,
    ensures
        record_value(b.take(m as int), start, t, c, f, l) == (TextOutcome::Incomplete { start }),
    decreases b.len() - t, 1int,
{
    let b2 = b.take(m as int);
    lemma_record_value_bounds(b, start, t, c, f, l);
    lemma_scan_value(b, t + 1, t + 1);
    match scan_value(b, t + 1, t + 1) {
        Scan::NeedMore => {},
        Scan::TooLong => lemma_resync_bounds(b, t + 1),
        Scan::Found(e) => {
            lemma_scan_value_prefix(b, m, t + 1, t + 1);
            if scan_value(b2, t + 1, t + 1) is Found {
                let v = b.subrange(t as int + 1, e as int);
                assert(b2.subrange(t as int + 1, e as int) == v);
                let c4 = (c + byte_sum(v)) % 256;
                if b[e as int] == COLON {
                    lemma_skip_hex_prefix(b, m, start, e, c4, f);
                } else if !valid_utf8(v) {
                    lemma_resync_bounds(b, e);
                } else {
                    lemma_block_prefix(b, m, start, e, c4, apply_record(f, l, v));
                }
            }
        },
    }
}

proof fn lemma_skip_hex_prefix(b: Seq<u8>, m: nat, start: nat, j: nat, c: int, f: MpptFrameView)
    requires
        start <= j < m <= b.len(),
        skip_hex(b, start, j, c, f) matches TextOutcome::Emit { start: s, end, .. } && s == start
            && m < end,
    ensures
        skip_hex(b.take(m as int), start, j, c, f) == (TextOutcome::Incomplete { start }),
    decreases b.len() - j, 1int,
{
    lemma_find_lf(b, j);
    lemma_skip_hex_bounds(b, start, j, c, f);
    if let Some(h) = find_lf(b, j) {
        lemma_find_lf_prefix(b, m, j);
        if h < m {
            lemma_block_prefix(b, m, start, h + 1, c, f);
        }
    }
}


/// Partial buffers: while a block that the decoder would emit from the start
/// of the buffer is only partly buffered, a call emits nothing and consumes
/// nothing, and the next call on the whole block emits the same frame. Feeding
/// a block in pieces, down to one byte per call, thus gives the frame that
/// feeding it at once gives.
pub proof fn lemma_text_partial_frame(state: State, b: Seq<u8>, m: nat, now: u64)
    requires
        text_outcome(state, b) matches TextOutcome::Emit { start, end, .. } && start == 0 && m
            < end,
    ensures
        ({
            let (frame, consumed, next) = text_decode(state, b.take(m as int), now);
            &&& frame is None
            &&& consumed == 0
            &&& text_decode(next, b, now) == text_decode(state, b, now)
        }),
{
    match state {
        State::Crlf => {
            lemma_block_prefix(b, m, 0, 0, 0, empty_frame());
        },
        State::Unsynchronized => {
            lemma_find_crlf(b, 0);
            let k = find_crlf(b, 0)->0;
            lemma_block_bounds(b, k, k, 0, empty_frame());
            assert(k == 0);
            let b2 = b.take(m as int);
            if m >= 2 {
                assert(find_crlf(b2, 0) == Some(0nat));
                lemma_block_prefix(b, m, 0, 0, 0, empty_frame());
            } else {
                assert(find_crlf(b2, 0) is None);
            }
        },
    }
}

/// Sum modulo 256 of the bytes `b[lo..hi]`.
pub open spec fn span_sum(b: Seq<u8>, lo: int, hi: int) -> int {
    byte_sum(b.subrange(lo, hi))
}

/// Whether `b[lo..hi]` holds no `:`, so no hex record.
pub open spec fn no_hex(b: Seq<u8>, lo: int, hi: int) -> bool {
    forall|k: int| lo <= k < hi ==> b[k] != COLON
}

proof fn lemma_byte_sum_concat(x: Seq<u8>, y: Seq<u8>)
    ensures
        byte_sum(x + y) == (byte_sum(x) + byte_sum(y)) % 256,
    decreases y.len(),
{
    if y.len() == 0 {
        assert(x + y == x);
        vstd::arithmetic::div_mod::lemma_mod_twice(byte_sum(x), 256);
        assert(0 <= byte_sum(x) < 256) by {
            lemma_byte_sum_range(x);
        }
        vstd::arithmetic::div_mod::lemma_small_mod(byte_sum(x) as nat, 256);
    } else {
        let y1 = y.drop_last();
        lemma_byte_sum_concat(x, y1);
        assert((x + y).drop_last() == x + y1);
        lemma_byte_sum_range(x);
        lemma_byte_sum_range(y1);
        lemma_sum_step(byte_sum(x), byte_sum(y1), y.last());
    }
}

proof fn lemma_byte_sum_range(x: Seq<u8>)
    ensures
        0 <= byte_sum(x) < 256,
    decreases x.len(),
{
    if x.len() > 0 {
        lemma_byte_sum_range(x.drop_last());
    }
}

proof fn lemma_span_split(b: Seq<u8>, lo: int, mid: int, hi: int)
    requires
        0 <= lo <= mid <= hi <= b.len(),
    ensures
        span_sum(b, lo, hi) == (span_sum(b, lo, mid) + span_sum(b, mid, hi)) % 256,
{
    assert(b.subrange(lo, hi) == b.subrange(lo, mid) + b.subrange(mid, hi));
    lemma_byte_sum_concat(b.subrange(lo, mid), b.subrange(mid, hi));
}

proof fn lemma_span_byte(b: Seq<u8>, lo: int, k: int)
    requires
        0 <= lo <= k < b.len(),
    ensures
        span_sum(b, lo, k + 1) == (span_sum(b, lo, k) + b[k]) % 256,
{
    assert(b.subrange(lo, k + 1).drop_last() == b.subrange(lo, k));
}

proof fn lemma_block_sum(b: Seq<u8>, start: nat, p: nat, c: int, f: MpptFrameView)
    requires
        start <= p <= b.len(),
        c == span_sum(b, start as int, p as int),
        block(b, start, p, c, f) matches TextOutcome::Emit { start: s, end, .. } && s == start
            && no_hex(b, p as int, end - 1),
    ensures
        block(b, start, p, c, f) matches TextOutcome::Emit { end, .. } && span_sum(b, start as int, end as int) == 0,
    decreases b.len() - p,
{
    lemma_block_bounds(b, start, p, c, f);
    if !(b[p as int] == CR && b[p as int + 1] == LF) {
        lemma_resync_bounds(b, p + 1);
        return ;
    }
    let ls = p + 2;
    lemma_span_byte(b, start as int, p as int);
    lemma_span_byte(b, start as int, p as int + 1);
    lemma_sum_step(c, CR as int, LF);
    lemma_scan_label(b, ls, ls);
    match scan_label(b, ls, ls) {
        Scan::NeedMore => {},
        Scan::TooLong => lemma_resync_bounds(b, ls),
        Scan::Found(t) => {
            let c1 = (c + CR + LF) % 256;
            assert(c1 == span_sum(b, start as int, ls as int));
            lemma_after_label_bounds(b, start, ls, t, c1, f);
            let label = b.subrange(ls as int, t as int);
            let c2 = (c1 + byte_sum(label)) % 256;
            lemma_span_split(b, start as int, ls as int, t as int);
            assert(b[t as int] != COLON);
            let c3 = (c2 + TAB) % 256;
            lemma_span_byte(b, start as int, t as int);
            match label_of(upper(label)) {
                None => lemma_resync_bounds(b, t + 1),
                Some(Label::Checksum) => {
                    lemma_span_byte(b, start as int, t as int + 1);
                    if (c3 + b[t as int + 1]) % 256 != 0 {
                        lemma_resync_bounds(b, t + 2);
                    }
                },
                Some(l) => {
                    lemma_record_value_bounds(b, start, t, c3, f, l);
                    lemma_scan_value(b, t + 1, t + 1);
                    match scan_value(b, t + 1, t + 1) {
                        Scan::NeedMore => {},
                        Scan::TooLong => lemma_resync_bounds(b, t + 1),
                        Scan::Found(e) => {
                            let v = b.subrange(t as int + 1, e as int);
                            let c4 = (c3 + byte_sum(v)) % 256;
                            lemma_scan_value(b, t + 1, t + 1);
                            if b[e as int] == COLON {
                                lemma_skip_hex_bounds(b, start, e, c4, f);
                            }
                            assert(b[e as int] != COLON);
                            lemma_span_split(b, start as int, t as int + 1, e as int);
                            if !valid_utf8(v) {
                                lemma_resync_bounds(b, e);
                            } else {
                                lemma_block_sum(b, start, e, c4, apply_record(f, l, v));
                            }
                        },
                    }
                },
            }
        },
    }
}

/// Soundness of the checksum: a frame that the decoder emits from a block at
/// the start of the buffer with no hex record in it comes from bytes whose sum
/// is zero modulo 256.
pub proof fn lemma_emitted_block_sums_to_zero(state: State, b: Seq<u8>)
    requires
        text_outcome(state, b) matches TextOutcome::Emit { start, end, .. } && start == 0
            && no_hex(b, 0, end - 1),
    ensures
        text_outcome(state, b) matches TextOutcome::Emit { end, .. } && span_sum(b, 0, end as int) == 0,
{
    assert(b.subrange(0, 0) =~= Seq::<u8>::empty());
    match state {
        State::Crlf => {
            lemma_block_sum(b, 0, 0, 0, empty_frame());
        },
        State::Unsynchronized => {
            lemma_find_crlf(b, 0);
            let k = find_crlf(b, 0)->0;
            lemma_block_bounds(b, k, k, 0, empty_frame());
            assert(k == 0);
            lemma_block_sum(b, 0, 0, 0, empty_frame());
        },
    }
}

/// Checksum sensitivity: change any one byte of a block that the decoder emits
/// from the start of the buffer, where neither the block nor the new byte holds
/// a `:` (which would start a hex record, left out of the checksum), and the
/// decoder no longer emits that block.
pub proof fn lemma_checksum_sensitivity(state: State, b: Seq<u8>, i: int, x: u8)
    requires
        text_outcome(state, b) matches TextOutcome::Emit { start, end, .. } && start == 0 && end
            == b.len(),
        no_hex(b, 0, b.len() - 1),
        0 <= i < b.len(),
        x != b[i],
        x != COLON,
    ensures
        !(text_outcome(state, b.update(i, x)) matches TextOutcome::Emit { start, end, .. } && start
            == 0 && end == b.len()),
{
    let b2 = b.update(i, x);
    lemma_emitted_block_sums_to_zero(state, b);
    if text_outcome(state, b2) matches TextOutcome::Emit { start, end, .. } && start == 0 && end
        == b.len() {
        lemma_emitted_block_sums_to_zero(state, b2);
        let n = b.len() as int;
        assert(b.subrange(0, n) == b);
        assert(b2.subrange(0, n) == b2);
        lemma_span_split(b, 0, i, n);
        lemma_span_split(b2, 0, i, n);
        lemma_span_split(b, i, i + 1, n);
        lemma_span_split(b2, i, i + 1, n);
        assert(b.subrange(0, i) == b2.subrange(0, i));
        assert(b.subrange(i + 1, n) == b2.subrange(i + 1, n));
        lemma_span_byte(b, i, i);
        lemma_span_byte(b2, i, i);
        assert(b.subrange(i, i) =~= Seq::<u8>::empty());
        assert(b2.subrange(i, i) =~= Seq::<u8>::empty());
        let pre = span_sum(b, 0, i);
        let post = span_sum(b, i + 1, n);
        lemma_byte_sum_range(b.subrange(0, i));
        lemma_byte_sum_range(b.subrange(i + 1, n));
        assert(span_sum(b, i, i + 1) == b[i] as int);
        assert(span_sum(b2, i, i + 1) == x as int);
        lemma_three_sums(pre, b[i], x, post);
    }
}

proof fn lemma_three_sums(pre: int, a: u8, x: u8, post: int)
    requires
        0 <= pre < 256,
        0 <= post < 256,
        a != x,
    ensures
        ((pre + (a + post) % 256) % 256 == 0) ==> ((pre + (x + post) % 256) % 256 != 0),
{
    vstd::arithmetic::div_mod::lemma_add_mod_noop(pre, a + post, 256);
    vstd::arithmetic::div_mod::lemma_add_mod_noop(pre, x + post, 256);
    vstd::arithmetic::div_mod::lemma_mod_twice(pre, 256);
    vstd::arithmetic::div_mod::lemma_mod_twice(a + post, 256);
    vstd::arithmetic::div_mod::lemma_mod_twice(x + post, 256);
    vstd::arithmetic::div_mod::lemma_small_mod(pre as nat, 256);
    assert((pre + a + post) % 256 == 0 ==> (pre + x + post) % 256 != 0) by (nonlinear_arith)
        requires
            0 <= pre < 256,
            0 <= post < 256,
            0 <= a < 256,
            0 <= x < 256,
            a != x,
    ;
}

/// A record whose label is not one the decoder knows makes it drop the block
/// and look for the next one from just after the label; decoding goes on.
pub proof fn lemma_unknown_label_resyncs(b: Seq<u8>, start: nat, p: nat, c: int, f: MpptFrameView)
    requires
        p + 2 <= b.len(),
        b[p as int] == CR && b[p as int + 1] == LF,
        scan_label(b, p + 2, p + 2) matches Scan::Found(t) && b[t as int] == TAB && label_of(
            upper(b.subrange(p as int + 2, t as int)),
        ) is None,
    ensures
        block(b, start, p, c, f) == resync(b, scan_label(b, p + 2, p + 2)->0 + 1),
{
    lemma_scan_label(b, p + 2, p + 2);
}

} // verus!
