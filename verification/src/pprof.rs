//! Serialization of a report into the pprof protocol-buffer wire format.
//!
//! The artifact is a single `Profile` message: a sample type, one sample per
//! distinct frame (a leaf-first location-id chain plus a count), a location
//! and a function table, a string table whose first entry is empty, and the
//! timing metadata. Identifiers are assigned sequentially in entry order;
//! every name and file path is appended to the string table in the same
//! order, so the function table's string indices are plain running offsets.

use vstd::prelude::*;

use crate::frames::{
    frame_strc, lemma_frame_strc_nonneg, lemma_frame_strc_prefix_le, lemma_frame_strc_take_step,
    lemma_sum_counts_cons, lemma_sum_strs_cons, lemma_sum_strs_nonneg, lemma_sum_syms_cons,
    lemma_sum_syms_nonneg, sum_counts, sum_strs, sum_syms, sym_strc, FrameView, Report, SymbolView,
};
use crate::timer::Timing;

verus! {

/// Base-128 varint encoding of an unsigned 64-bit value, least significant
/// group first, as the protocol-buffer wire format defines it.
pub open spec fn enc_varint(n: u64) -> Seq<u8>
    decreases n,
{
    if n < 128 {
        seq![n as u8]
    } else {
        seq![(((n as int) % 128 + 128) as u8)] + enc_varint((((n as int) / 128) as u64))
    }
}

/// The key that introduces a field: field number and wire type.
pub open spec fn enc_key(field: u64, wire: u64) -> Seq<u8> {
    enc_varint(((field * 8 + wire) as u64))
}

/// A varint-valued field, omitted at its default of zero.
pub open spec fn enc_uint_field(field: u64, v: u64) -> Seq<u8> {
    if v == 0 {
        Seq::empty()
    } else {
        enc_key(field, 0) + enc_varint(v)
    }
}

/// One element of a repeated varint field; never omitted.
pub open spec fn enc_rep_uint(field: u64, v: u64) -> Seq<u8> {
    enc_key(field, 0) + enc_varint(v)
}

/// A length-delimited field: key, byte length, payload.
pub open spec fn enc_delim(field: u64, body: Seq<u8>) -> Seq<u8> {
    enc_key(field, 2) + enc_varint((body.len() as u64)) + body
}

/// The string table entry `"samples"`.
pub open spec fn samples_label() -> Seq<u8> {
    seq![115u8, 97u8, 109u8, 112u8, 108u8, 101u8, 115u8]
}

/// The string table entry `"count"`.
pub open spec fn count_label() -> Seq<u8> {
    seq![99u8, 111u8, 117u8, 110u8, 116u8]
}

/// The profile's single sample type: `samples` of unit `count`, referring
/// to string-table entries one and two.
pub open spec fn enc_sample_type() -> Seq<u8> {
    enc_delim(1, enc_uint_field(1, 1) + enc_uint_field(2, 2))
}

/// A run of `count` location identifiers starting right after `sym_done`.
pub open spec fn enc_loc_ids(count: int, sym_done: int) -> Seq<u8>
    decreases count,
{
    if count <= 0 {
        Seq::empty()
    } else {
        enc_rep_uint(1, ((sym_done + 1) as u64)) + enc_loc_ids(count - 1, sym_done + 1)
    }
}

/// One sample: the frame's location-id chain, leaf first, then its count.
pub open spec fn enc_sample(f: FrameView, sym_done: int, count: u64) -> Seq<u8> {
    enc_delim(2, enc_loc_ids(f.len() as int, sym_done) + enc_rep_uint(2, count))
}

/// The sample table over the entries, with `sym_done` symbols already
/// numbered.
pub open spec fn enc_samples(entries: Seq<(FrameView, u64)>, sym_done: int) -> Seq<u8>
    decreases entries.len(),
{
    if entries.len() == 0 {
        Seq::empty()
    } else {
        enc_sample(entries.first().0, sym_done, entries.first().1) + enc_samples(
            entries.drop_first(),
            sym_done + entries.first().0.len(),
        )
    }
}

/// A location's single line record: the function reference and, when
/// known, the 1-based line number.
pub open spec fn enc_line(function_id: u64, line: Option<u64>) -> Seq<u8> {
    enc_delim(
        4,
        enc_uint_field(1, function_id) + (match line {
            Some(l) => enc_uint_field(2, l),
            None => Seq::empty(),
        }),
    )
}

/// One location: its identifier and its line record. The function table
/// entry for a symbol carries the same identifier as its location.
pub open spec fn enc_location(id: u64, line: Option<u64>) -> Seq<u8> {
    enc_delim(4, enc_uint_field(1, id) + enc_line(id, line))
}

/// The locations of one frame, numbered sequentially after `sym_done`.
pub open spec fn enc_locs_frame(f: FrameView, sym_done: int) -> Seq<u8>
    decreases f.len(),
{
    if f.len() == 0 {
        Seq::empty()
    } else {
        enc_location(((sym_done + 1) as u64), f.first().line) + enc_locs_frame(
            f.drop_first(),
            sym_done + 1,
        )
    }
}

/// The location table over the entries.
pub open spec fn enc_locs(entries: Seq<(FrameView, u64)>, sym_done: int) -> Seq<u8>
    decreases entries.len(),
{
    if entries.len() == 0 {
        Seq::empty()
    } else {
        enc_locs_frame(entries.first().0, sym_done) + enc_locs(
            entries.drop_first(),
            sym_done + entries.first().0.len(),
        )
    }
}

/// One function record: identifier, name index, file index.
pub open spec fn enc_function(id: u64, name_idx: u64, file_idx: u64) -> Seq<u8> {
    enc_delim(5, enc_uint_field(1, id) + enc_uint_field(2, name_idx) + enc_uint_field(4, file_idx))
}

/// The string-table index of a symbol's name: the next free slot after the
/// three fixed entries and `str_done` appended strings, or zero (the empty
/// string) when absent.
pub open spec fn sym_name_idx(s: SymbolView, str_done: int) -> u64 {
    if s.name is Some {
        ((3 + str_done) as u64)
    } else {
        0u64
    }
}

/// The string-table index of a symbol's file, right after its name's slot,
/// or zero when absent.
pub open spec fn sym_file_idx(s: SymbolView, str_done: int) -> u64 {
    if s.file is Some {
        ((3 + str_done + (if s.name is Some {
            1int
        } else {
            0int
        })) as u64)
    } else {
        0u64
    }
}

/// The function records of one frame.
pub open spec fn enc_funcs_frame(f: FrameView, sym_done: int, str_done: int) -> Seq<u8>
    decreases f.len(),
{
    if f.len() == 0 {
        Seq::empty()
    } else {
        enc_function(
            ((sym_done + 1) as u64),
            sym_name_idx(f.first(), str_done),
            sym_file_idx(f.first(), str_done),
        ) + enc_funcs_frame(f.drop_first(), sym_done + 1, str_done + sym_strc(f.first()))
    }
}

/// The function table over the entries.
pub open spec fn enc_funcs(entries: Seq<(FrameView, u64)>, sym_done: int, str_done: int) -> Seq<u8>
    decreases entries.len(),
{
    if entries.len() == 0 {
        Seq::empty()
    } else {
        enc_funcs_frame(entries.first().0, sym_done, str_done) + enc_funcs(
            entries.drop_first(),
            sym_done + entries.first().0.len(),
            str_done + frame_strc(entries.first().0),
        )
    }
}

/// The string-table entries one symbol appends: its name, then its file.
pub open spec fn enc_strs_sym(s: SymbolView) -> Seq<u8> {
    (match s.name {
        Some(n) => enc_delim(6, n),
        None => Seq::empty(),
    }) + (match s.file {
        Some(fl) => enc_delim(6, fl),
        None => Seq::empty(),
    })
}

/// The string-table entries one frame appends.
pub open spec fn enc_strs_frame(f: FrameView) -> Seq<u8>
    decreases f.len(),
{
    if f.len() == 0 {
        Seq::empty()
    } else {
        enc_strs_sym(f.first()) + enc_strs_frame(f.drop_first())
    }
}

/// The string-table entries all entries append.
pub open spec fn enc_strs(entries: Seq<(FrameView, u64)>) -> Seq<u8>
    decreases entries.len(),
{
    if entries.len() == 0 {
        Seq::empty()
    } else {
        enc_strs_frame(entries.first().0) + enc_strs(entries.drop_first())
    }
}

/// The whole string table: the mandatory empty first entry, the two fixed
/// labels, then the per-symbol strings.
pub open spec fn enc_str_table(entries: Seq<(FrameView, u64)>) -> Seq<u8> {
    enc_delim(6, Seq::empty()) + enc_delim(6, samples_label()) + enc_delim(6, count_label())
        + enc_strs(entries)
}

/// The full serialized profile message for the given entries and timing.
pub open spec fn spec_profile_bytes(
    entries: Seq<(FrameView, u64)>,
    start_nanos: u64,
    duration_nanos: u64,
    period_nanos: u64,
) -> Seq<u8> {
    enc_sample_type() + enc_samples(entries, 0) + enc_locs(entries, 0) + enc_funcs(entries, 0, 0)
        + enc_str_table(entries) + enc_uint_field(9, start_nanos) + enc_uint_field(
        10,
        duration_nanos,
    ) + enc_uint_field(12, period_nanos)
}

/// What a conforming reader makes of a varint at the head of a byte
/// stream: the decoded value and the bytes that follow it. An empty stream
/// decodes to zero.
pub open spec fn dec_varint(s: Seq<u8>) -> (int, Seq<u8>)
    decreases s.len(),
{
    if s.len() == 0 {
        (0, s)
    } else if s.first() < 128 {
        (s.first() as int, s.drop_first())
    } else {
        let (v, rest) = dec_varint(s.drop_first());
        ((s.first() - 128) + 128 * v, rest)
    }
}

/// A conforming reader recovers every encoded value exactly: decoding an
/// encoded varint, whatever follows it, yields the value and leaves the
/// following bytes untouched.
pub proof fn lemma_varint_roundtrip(n: u64, tail: Seq<u8>)
    ensures
        dec_varint(enc_varint(n) + tail) == (n as int, tail),
    decreases n,
{
    if n < 128 {
        assert((enc_varint(n) + tail).first() == n as u8);
        assert((enc_varint(n) + tail).drop_first() =~= tail);
    } else {
        let b = ((n as int) % 128 + 128) as u8;
        let rest = ((n as int) / 128) as u64;
        assert(enc_varint(n) + tail =~= seq![b] + (enc_varint(rest) + tail));
        lemma_varint_roundtrip(rest, tail);
        assert((seq![b] + (enc_varint(rest) + tail)).drop_first() =~= enc_varint(rest) + tail);
        vstd::arithmetic::div_mod::lemma_fundamental_div_mod(n as int, 128);
    }
}

/// Decoding a non-empty stream always consumes at least one byte, and
/// never produces bytes.
pub proof fn lemma_dec_varint_consumes(s: Seq<u8>)
    ensures
        s.len() > 0 ==> dec_varint(s).1.len() < s.len(),
        dec_varint(s).1.len() <= s.len(),
    decreases s.len(),
{
    if s.len() > 0 && s.first() >= 128 {
        lemma_dec_varint_consumes(s.drop_first());
    }
}

/// A varint never takes more than ten bytes: one per seven bits of the
/// 64-bit value.
pub proof fn lemma_varint_len(n: u64)
    ensures
        1 <= enc_varint(n).len() <= 10,
        n < 0x80 ==> enc_varint(n).len() <= 1,
        n < 0x4000 ==> enc_varint(n).len() <= 2,
        n < 0x200000 ==> enc_varint(n).len() <= 3,
        n < 0x10000000 ==> enc_varint(n).len() <= 4,
        n < 0x800000000 ==> enc_varint(n).len() <= 5,
        n < 0x40000000000 ==> enc_varint(n).len() <= 6,
        n < 0x2000000000000 ==> enc_varint(n).len() <= 7,
        n < 0x100000000000000 ==> enc_varint(n).len() <= 8,
        n < 0x8000000000000000 ==> enc_varint(n).len() <= 9,
    decreases n,
{
    if n >= 128 {
        lemma_varint_len((((n as int) / 128) as u64));
    }
}

/// A frame's run of location identifiers takes at most eleven bytes per
/// identifier.
pub proof fn lemma_loc_ids_len(count: int, sym_done: int)
    requires
        count >= 0,
    ensures
        enc_loc_ids(count, sym_done).len() <= 11 * count,
    decreases count,
{
    if count > 0 {
        lemma_varint_len(8);
        lemma_varint_len(((sym_done + 1) as u64));
        lemma_loc_ids_len(count - 1, sym_done + 1);
    }
}

/// What a conforming reader makes of one sample record's payload: it
/// walks the varint fields and returns the `value` field (field 2, wire
/// type 0), the sample's count.
pub open spec fn sample_count_of(s: Seq<u8>) -> int
    decreases s.len(),
    via sample_count_of_dec
{
    if s.len() == 0 {
        0
    } else {
        let (key, rest1) = dec_varint(s);
        let (v, rest2) = dec_varint(rest1);
        if key == 16 {
            v
        } else {
            sample_count_of(rest2)
        }
    }
}

#[via_fn]
proof fn sample_count_of_dec(s: Seq<u8>) {
    lemma_dec_varint_consumes(s);
    if s.len() > 0 {
        lemma_dec_varint_consumes(dec_varint(s).1);
    }
}

/// What a conforming reader makes of a run of top-level profile fields:
/// it reads each field key, skips varint fields, skips length-delimited
/// fields whole — except a sample (field 2), whose payload contributes its
/// count — and sums the counts of all samples it passes.
pub open spec fn scan_samples_total(s: Seq<u8>) -> int
    decreases s.len(),
    via scan_samples_total_dec
{
    if s.len() == 0 {
        0
    } else {
        let (key, rest1) = dec_varint(s);
        if key % 8 == 0 {
            let (_v, rest2) = dec_varint(rest1);
            scan_samples_total(rest2)
        } else if key % 8 == 2 {
            let (len, rest2) = dec_varint(rest1);
            let cut = if 0 <= len <= rest2.len() {
                len
            } else {
                rest2.len() as int
            };
            let payload = rest2.take(cut);
            let rest3 = rest2.skip(cut);
            (if key / 8 == 2 {
                sample_count_of(payload)
            } else {
                0
            }) + scan_samples_total(rest3)
        } else {
            0
        }
    }
}

#[via_fn]
proof fn scan_samples_total_dec(s: Seq<u8>) {
    lemma_dec_varint_consumes(s);
    if s.len() > 0 {
        lemma_dec_varint_consumes(dec_varint(s).1);
    }
}

/// A reader scanning a length-delimited field adds that sample's count
/// when the field is a sample, and passes over it whole otherwise.
pub proof fn lemma_scan_delim(field: u64, body: Seq<u8>, rest: Seq<u8>)
    requires
        1 <= field <= 100,
        body.len() <= u64::MAX,
    ensures
        scan_samples_total(enc_delim(field, body) + rest) == (if field == 2 {
            sample_count_of(body)
        } else {
            0int
        }) + scan_samples_total(rest),
{
    let s = enc_delim(field, body) + rest;
    let key = ((field * 8 + 2) as u64);
    assert(s =~= enc_varint(key) + (enc_varint((body.len() as u64)) + (body + rest)));
    lemma_varint_roundtrip(key, enc_varint((body.len() as u64)) + (body + rest));
    lemma_varint_roundtrip((body.len() as u64), body + rest);
    assert((key as int) % 8 == 2);
    assert((key as int) / 8 == field);
    assert((body + rest).take(body.len() as int) =~= body);
    assert((body + rest).skip(body.len() as int) =~= rest);
}

/// The count a reader finds inside one encoded sample: the location-id
/// run is passed over, the value field is the count.
pub proof fn lemma_sample_count(count: int, sym_done: int, c: u64)
    requires
        count >= 0,
    ensures
        sample_count_of(enc_loc_ids(count, sym_done) + enc_rep_uint(2, c)) == c,
    decreases count,
{
    if count == 0 {
        assert(enc_loc_ids(count, sym_done) + enc_rep_uint(2, c) =~= enc_varint(16) + (enc_varint(
            c,
        ) + Seq::<u8>::empty()));
        lemma_varint_roundtrip(16, enc_varint(c) + Seq::<u8>::empty());
        assert(enc_varint(c) + Seq::<u8>::empty() =~= enc_varint(c) + Seq::<u8>::empty());
        lemma_varint_roundtrip(c, Seq::<u8>::empty());
    } else {
        let id = ((sym_done + 1) as u64);
        let tail = enc_loc_ids(count - 1, sym_done + 1) + enc_rep_uint(2, c);
        assert(enc_loc_ids(count, sym_done) + enc_rep_uint(2, c) =~= enc_varint(8) + (enc_varint(
            id,
        ) + tail));
        lemma_varint_roundtrip(8, enc_varint(id) + tail);
        lemma_varint_roundtrip(id, tail);
        lemma_sample_count(count - 1, sym_done + 1, c);
    }
}

/// What a conforming reader takes away from the artifact's sample table:
/// the sample counts it reads sum to the sum of the entries' counts — with
/// `Report::wf`, to the number of recorded ticks. The per-frame size bound
/// only keeps every encoded length inside the 64 bits a reader decodes; it
/// is far above any frame a machine can hold.
pub proof fn lemma_scan_samples(entries: Seq<(FrameView, u64)>, sym_done: int, rest: Seq<u8>)
    requires
        forall|i: int| 0 <= i < entries.len() ==> (#[trigger] entries[i]).0.len()
            <= 0x100000000000000,
    ensures
        scan_samples_total(enc_samples(entries, sym_done) + rest) == sum_counts(entries)
            + scan_samples_total(rest),
    decreases entries.len(),
{
    if entries.len() == 0 {
        assert(enc_samples(entries, sym_done) + rest =~= rest);
    } else {
        let f = entries.first().0;
        let c = entries.first().1;
        let body = enc_loc_ids(f.len() as int, sym_done) + enc_rep_uint(2, c);
        let rest2 = enc_samples(entries.drop_first(), sym_done + f.len()) + rest;
        assert(enc_samples(entries, sym_done) + rest =~= enc_delim(2, body) + rest2);
        lemma_loc_ids_len(f.len() as int, sym_done);
        lemma_varint_len(16);
        lemma_varint_len(c);
        lemma_scan_delim(2, body, rest2);
        lemma_sample_count(f.len() as int, sym_done, c);
        assert(forall|i: int|
            0 <= i < entries.drop_first().len() ==> (#[trigger] entries.drop_first()[i])
                == entries[i + 1]);
        lemma_scan_samples(entries.drop_first(), sym_done + f.len(), rest);
        assert(entries =~= seq![entries.first()] + entries.drop_first());
        lemma_sum_counts_cons(entries.first(), entries.drop_first());
    }
}
/// A reader passes over a varint field whole.
pub proof fn lemma_scan_uint_field(field: u64, v: u64, rest: Seq<u8>)
    requires
        1 <= field <= 100,
    ensures
        scan_samples_total(enc_uint_field(field, v) + rest) == scan_samples_total(rest),
{
    if v == 0 {
        assert(enc_uint_field(field, v) + rest =~= rest);
    } else {
        let key = ((field * 8 + 0) as u64);
        assert(enc_uint_field(field, v) + rest =~= enc_varint(key) + (enc_varint(v) + rest));
        lemma_varint_roundtrip(key, enc_varint(v) + rest);
        lemma_varint_roundtrip(v, rest);
        assert((key as int) % 8 == 0);
    }
}

/// A field key takes at most ten bytes.
proof fn lemma_key_len(field: u64, wire: u64)
    ensures
        enc_key(field, wire).len() <= 10,
{
    lemma_varint_len(((field * 8 + wire) as u64));
}

/// A varint field takes at most twenty bytes.
proof fn lemma_uint_field_len(field: u64, v: u64)
    ensures
        enc_uint_field(field, v).len() <= 20,
{
    if v != 0 {
        lemma_key_len(field, 0);
        lemma_varint_len(v);
    }
}

/// A location's line record takes at most 62 bytes.
proof fn lemma_line_len(function_id: u64, line: Option<u64>)
    ensures
        enc_line(function_id, line).len() <= 62,
{
    lemma_uint_field_len(1, function_id);
    match line {
        Some(l) => lemma_uint_field_len(2, l),
        None => (),
    }
    let lb = enc_uint_field(1, function_id) + (match line {
        Some(l) => enc_uint_field(2, l),
        None => Seq::<u8>::empty(),
    });
    lemma_key_len(4, 2);
    lemma_varint_len((lb.len() as u64));
}

/// A reader passes over a frame's location records whole.
proof fn lemma_scan_locs_frame(f: FrameView, sym_done: int, rest: Seq<u8>)
    ensures
        scan_samples_total(enc_locs_frame(f, sym_done) + rest) == scan_samples_total(rest),
    decreases f.len(),
{
    if f.len() == 0 {
        assert(enc_locs_frame(f, sym_done) + rest =~= rest);
    } else {
        let id = ((sym_done + 1) as u64);
        let body = enc_uint_field(1, id) + enc_line(id, f.first().line);
        let rest2 = enc_locs_frame(f.drop_first(), sym_done + 1) + rest;
        assert(enc_locs_frame(f, sym_done) + rest =~= enc_delim(4, body) + rest2);
        lemma_uint_field_len(1, id);
        lemma_line_len(id, f.first().line);
        lemma_scan_delim(4, body, rest2);
        lemma_scan_locs_frame(f.drop_first(), sym_done + 1, rest);
    }
}

/// A reader passes over the location table whole.
proof fn lemma_scan_locs(entries: Seq<(FrameView, u64)>, sym_done: int, rest: Seq<u8>)
    ensures
        scan_samples_total(enc_locs(entries, sym_done) + rest) == scan_samples_total(rest),
    decreases entries.len(),
{
    if entries.len() == 0 {
        assert(enc_locs(entries, sym_done) + rest =~= rest);
    } else {
        let f = entries.first().0;
        let rest2 = enc_locs(entries.drop_first(), sym_done + f.len()) + rest;
        assert(enc_locs(entries, sym_done) + rest =~= enc_locs_frame(f, sym_done) + rest2);
        lemma_scan_locs_frame(f, sym_done, rest2);
        lemma_scan_locs(entries.drop_first(), sym_done + f.len(), rest);
    }
}

/// A reader passes over a frame's function records whole.
proof fn lemma_scan_funcs_frame(f: FrameView, sym_done: int, str_done: int, rest: Seq<u8>)
    ensures
        scan_samples_total(enc_funcs_frame(f, sym_done, str_done) + rest) == scan_samples_total(
            rest,
        ),
    decreases f.len(),
{
    if f.len() == 0 {
        assert(enc_funcs_frame(f, sym_done, str_done) + rest =~= rest);
    } else {
        let id = ((sym_done + 1) as u64);
        let nidx = sym_name_idx(f.first(), str_done);
        let fidx = sym_file_idx(f.first(), str_done);
        let body = enc_uint_field(1, id) + enc_uint_field(2, nidx) + enc_uint_field(4, fidx);
        let rest2 = enc_funcs_frame(f.drop_first(), sym_done + 1, str_done + sym_strc(f.first()))
            + rest;
        assert(enc_funcs_frame(f, sym_done, str_done) + rest =~= enc_delim(5, body) + rest2);
        lemma_uint_field_len(1, id);
        lemma_uint_field_len(2, nidx);
        lemma_uint_field_len(4, fidx);
        lemma_scan_delim(5, body, rest2);
        lemma_scan_funcs_frame(f.drop_first(), sym_done + 1, str_done + sym_strc(f.first()), rest);
    }
}

/// A reader passes over the function table whole.
proof fn lemma_scan_funcs(
    entries: Seq<(FrameView, u64)>,
    sym_done: int,
    str_done: int,
    rest: Seq<u8>,
)
    ensures
        scan_samples_total(enc_funcs(entries, sym_done, str_done) + rest) == scan_samples_total(
            rest,
        ),
    decreases entries.len(),
{
    if entries.len() == 0 {
        assert(enc_funcs(entries, sym_done, str_done) + rest =~= rest);
    } else {
        let f = entries.first().0;
        let rest2 = enc_funcs(entries.drop_first(), sym_done + f.len(), str_done + frame_strc(f))
            + rest;
        assert(enc_funcs(entries, sym_done, str_done) + rest =~= enc_funcs_frame(
            f,
            sym_done,
            str_done,
        ) + rest2);
        lemma_scan_funcs_frame(f, sym_done, str_done, rest2);
        lemma_scan_funcs(entries.drop_first(), sym_done + f.len(), str_done + frame_strc(f), rest);
    }
}

/// Whether a symbol's strings fit the 64-bit lengths a reader decodes.
pub open spec fn sym_strings_fit(s: SymbolView) -> bool {
    &&& (match s.name {
        Some(n) => n.len() <= u64::MAX,
        None => true,
    })
    &&& (match s.file {
        Some(fl) => fl.len() <= u64::MAX,
        None => true,
    })
}

/// Whether every string in every frame of the entries fits.
pub open spec fn entries_strings_fit(entries: Seq<(FrameView, u64)>) -> bool {
    forall|i: int, d: int|
        0 <= i < entries.len() && 0 <= d < entries[i].0.len() ==> sym_strings_fit(
            #[trigger] entries[i].0[d],
        )
}

/// A reader passes over one symbol's string-table entries whole.
proof fn lemma_scan_strs_sym(s: SymbolView, rest: Seq<u8>)
    requires
        sym_strings_fit(s),
    ensures
        scan_samples_total(enc_strs_sym(s) + rest) == scan_samples_total(rest),
{
    match (s.name, s.file) {
        (Some(n), Some(fl)) => {
            assert(enc_strs_sym(s) + rest =~= enc_delim(6, n) + (enc_delim(6, fl) + rest));
            lemma_scan_delim(6, n, enc_delim(6, fl) + rest);
            lemma_scan_delim(6, fl, rest);
        },
        (Some(n), None) => {
            assert(enc_strs_sym(s) + rest =~= enc_delim(6, n) + rest);
            lemma_scan_delim(6, n, rest);
        },
        (None, Some(fl)) => {
            assert(enc_strs_sym(s) + rest =~= enc_delim(6, fl) + rest);
            lemma_scan_delim(6, fl, rest);
        },
        (None, None) => {
            assert(enc_strs_sym(s) + rest =~= rest);
        },
    }
}

/// A reader passes over a frame's string-table entries whole.
proof fn lemma_scan_strs_frame(f: FrameView, rest: Seq<u8>)
    requires
        forall|d: int| 0 <= d < f.len() ==> sym_strings_fit(#[trigger] f[d]),
    ensures
        scan_samples_total(enc_strs_frame(f) + rest) == scan_samples_total(rest),
    decreases f.len(),
{
    if f.len() == 0 {
        assert(enc_strs_frame(f) + rest =~= rest);
    } else {
        let rest2 = enc_strs_frame(f.drop_first()) + rest;
        assert(enc_strs_frame(f) + rest =~= enc_strs_sym(f.first()) + rest2);
        lemma_scan_strs_sym(f.first(), rest2);
        assert(forall|d: int|
            0 <= d < f.drop_first().len() ==> (#[trigger] f.drop_first()[d]) == f[d + 1]);
        lemma_scan_strs_frame(f.drop_first(), rest);
    }
}

/// A reader passes over all appended string-table entries whole.
proof fn lemma_scan_strs(entries: Seq<(FrameView, u64)>, rest: Seq<u8>)
    requires
        entries_strings_fit(entries),
    ensures
        scan_samples_total(enc_strs(entries) + rest) == scan_samples_total(rest),
    decreases entries.len(),
{
    if entries.len() == 0 {
        assert(enc_strs(entries) + rest =~= rest);
    } else {
        let rest2 = enc_strs(entries.drop_first()) + rest;
        assert(enc_strs(entries) + rest =~= enc_strs_frame(entries.first().0) + rest2);
        assert(forall|d: int|
            0 <= d < entries.first().0.len() ==> sym_strings_fit(#[trigger] entries.first().0[d]));
        lemma_scan_strs_frame(entries.first().0, rest2);
        assert(forall|i: int|
            0 <= i < entries.drop_first().len() ==> (#[trigger] entries.drop_first()[i])
                == entries[i + 1]);
        lemma_scan_strs(entries.drop_first(), rest);
    }
}

/// What a conforming reader takes away from the whole artifact: scanning
/// the serialized profile message field by field yields a total sample
/// count equal to the sum of the entries' counts — with `Report::wf`, the
/// number of recorded ticks. The size bounds only keep every encoded
/// length within the 64 bits a reader decodes; both are far above anything
/// a machine can hold.
pub proof fn lemma_profile_total(
    entries: Seq<(FrameView, u64)>,
    start_nanos: u64,
    duration_nanos: u64,
    period_nanos: u64,
)
    requires
        forall|i: int| 0 <= i < entries.len() ==> (#[trigger] entries[i]).0.len()
            <= 0x100000000000000,
        entries_strings_fit(entries),
    ensures
        scan_samples_total(spec_profile_bytes(entries, start_nanos, duration_nanos, period_nanos))
            == sum_counts(entries),
{
    let st_body = enc_uint_field(1, 1) + enc_uint_field(2, 2);
    let r10 = enc_uint_field(12, period_nanos) + Seq::<u8>::empty();
    let r9 = enc_uint_field(10, duration_nanos) + r10;
    let r8 = enc_uint_field(9, start_nanos) + r9;
    let r7 = enc_strs(entries) + r8;
    let r6 = enc_delim(6, count_label()) + r7;
    let r5 = enc_delim(6, samples_label()) + r6;
    let r4 = enc_delim(6, Seq::<u8>::empty()) + r5;
    let r3 = enc_funcs(entries, 0, 0) + r4;
    let r2 = enc_locs(entries, 0) + r3;
    let r1 = enc_samples(entries, 0) + r2;
    assert(spec_profile_bytes(entries, start_nanos, duration_nanos, period_nanos) =~= enc_delim(
        1,
        st_body,
    ) + r1);
    lemma_uint_field_len(1, 1);
    lemma_uint_field_len(2, 2);
    lemma_scan_delim(1, st_body, r1);
    lemma_scan_samples(entries, 0, r2);
    lemma_scan_locs(entries, 0, r3);
    lemma_scan_funcs(entries, 0, 0, r4);
    lemma_scan_delim(6, Seq::<u8>::empty(), r5);
    lemma_scan_delim(6, samples_label(), r6);
    lemma_scan_delim(6, count_label(), r7);
    lemma_scan_strs(entries, r8);
    lemma_scan_uint_field(9, start_nanos, r9);
    lemma_scan_uint_field(10, duration_nanos, r10);
    assert(enc_uint_field(12, period_nanos) =~= enc_uint_field(12, period_nanos)
        + Seq::<u8>::empty());
    lemma_scan_uint_field(12, period_nanos, Seq::<u8>::empty());
    assert(scan_samples_total(Seq::<u8>::empty()) == 0);
}

/// Append the varint encoding of `n`.
pub fn push_varint(out: &mut Vec<u8>, n: u64)
    ensures
        final(out)@ == old(out)@ + enc_varint(n),
    decreases n,
{
    if n < 128 {
        out.push(n as u8);
        proof {
            assert(out@ =~= old(out)@ + enc_varint(n));
        }
    } else {
        let ghost mid = old(out)@;
        out.push((n % 128 + 128) as u8);
        push_varint(out, n / 128);
        proof {
            assert(out@ =~= mid + enc_varint(n));
        }
    }
}

/// Append a field key.
pub fn push_key(out: &mut Vec<u8>, field: u64, wire: u64)
    requires
        1 <= field <= 100,
        wire <= 7,
    ensures
        final(out)@ == old(out)@ + enc_key(field, wire),
{
    push_varint(out, field * 8 + wire);
}

/// Append a varint field, omitting a zero value.
pub fn push_uint_field(out: &mut Vec<u8>, field: u64, v: u64)
    requires
        1 <= field <= 100,
    ensures
        final(out)@ == old(out)@ + enc_uint_field(field, v),
{
    if v == 0 {
        proof {
            assert(out@ =~= old(out)@ + Seq::<u8>::empty());
        }
        return ;
    }
    let ghost mid = old(out)@;
    push_key(out, field, 0);
    push_varint(out, v);
    proof {
        assert(out@ =~= mid + enc_uint_field(field, v));
    }
}

/// Append one element of a repeated varint field.
pub fn push_rep_uint(out: &mut Vec<u8>, field: u64, v: u64)
    requires
        1 <= field <= 100,
    ensures
        final(out)@ == old(out)@ + enc_rep_uint(field, v),
{
    let ghost mid = old(out)@;
    push_key(out, field, 0);
    push_varint(out, v);
    proof {
        assert(out@ =~= mid + enc_rep_uint(field, v));
    }
}

/// Append the bytes of `b`.
pub fn push_bytes(out: &mut Vec<u8>, b: &Vec<u8>)
    ensures
        final(out)@ == old(out)@ + b@,
{
    let n = b.len();
    let mut i: usize = 0;
    while i < n
        invariant
            n == b@.len(),
            i <= n,
            out@ == old(out)@ + b@.take(i as int),
        decreases n - i,
    {
        out.push(b[i]);
        proof {
            assert(out@ =~= old(out)@ + b@.take(i + 1));
        }
        i += 1;
    }
    proof {
        assert(b@.take(n as int) =~= b@);
    }
}

/// Append a length-delimited field holding `body`.
pub fn push_delim(out: &mut Vec<u8>, field: u64, body: &Vec<u8>)
    requires
        1 <= field <= 100,
    ensures
        final(out)@ == old(out)@ + enc_delim(field, body@),
{
    let ghost mid = old(out)@;
    push_key(out, field, 2);
    push_varint(out, body.len() as u64);
    push_bytes(out, body);
    proof {
        assert(out@ =~= mid + enc_delim(field, body@));
    }
}

/// The bytes of the `"samples"` label.
fn samples_label_bytes() -> (r: Vec<u8>)
    ensures
        r@ == samples_label(),
{
    let mut v: Vec<u8> = Vec::new();
    v.push(115);
    v.push(97);
    v.push(109);
    v.push(112);
    v.push(108);
    v.push(101);
    v.push(115);
    proof {
        assert(v@ =~= samples_label());
    }
    v
}

/// The bytes of the `"count"` label.
fn count_label_bytes() -> (r: Vec<u8>)
    ensures
        r@ == count_label(),
{
    let mut v: Vec<u8> = Vec::new();
    v.push(99);
    v.push(111);
    v.push(117);
    v.push(110);
    v.push(116);
    proof {
        assert(v@ =~= count_label());
    }
    v
}

/// Peeling the first of the remaining entries.
proof fn lemma_entries_skip(entries: Seq<(FrameView, u64)>, i: int)
    requires
        0 <= i < entries.len(),
    ensures
        entries.skip(i).len() == entries.len() - i,
        entries.skip(i).first() == entries[i],
        entries.skip(i).drop_first() =~= entries.skip(i + 1),
        entries.skip(i) =~= seq![entries[i]] + entries.skip(i + 1),
{
    assert(entries.skip(i).drop_first() =~= entries.skip(i + 1));
    assert(entries.skip(i) =~= seq![entries[i]] + entries.skip(i + 1));
}

/// Peeling the first of a frame's remaining symbols.
proof fn lemma_frame_skip(f: FrameView, d: int)
    requires
        0 <= d < f.len(),
    ensures
        f.skip(d).len() == f.len() - d,
        f.skip(d).first() == f[d],
        f.skip(d).drop_first() =~= f.skip(d + 1),
{
    assert(f.skip(d).drop_first() =~= f.skip(d + 1));
}

/// Serialize a report snapshot with its timing into the profile message.
pub fn render_profile(report: &Report, timing: &Timing) -> (r: Vec<u8>)
    requires
        report.wf(),
    ensures
        r@ == spec_profile_bytes(
            report@,
            timing.start_time_nanos,
            timing.duration_nanos,
            timing.period_nanos,
        ),
{
    let ghost entries = report@;
    let mut sbuf: Vec<u8> = Vec::new();
    let mut lbuf: Vec<u8> = Vec::new();
    let mut fbuf: Vec<u8> = Vec::new();
    let mut tbuf: Vec<u8> = Vec::new();
    let mut sym_done: u64 = 0;
    let mut str_done: u64 = 0;
    let n = report.len();
    let mut i: usize = 0;
    proof {
        report.lemma_wf_sums();
        assert(entries.skip(0) =~= entries);
        assert(sbuf@ + enc_samples(entries, 0) =~= enc_samples(entries, 0));
        assert(lbuf@ + enc_locs(entries, 0) =~= enc_locs(entries, 0));
        assert(fbuf@ + enc_funcs(entries, 0, 0) =~= enc_funcs(entries, 0, 0));
        assert(tbuf@ + enc_strs(entries) =~= enc_strs(entries));
    }
    while i < n
        invariant
            report.wf(),
            entries == report@,
            n == entries.len(),
            i <= n,
            sym_done as int + sum_syms(entries.skip(i as int)) == report.sym_total() as int,
            str_done as int + sum_strs(entries.skip(i as int)) == report.str_total() as int,
            sbuf@ + enc_samples(entries.skip(i as int), sym_done as int) == enc_samples(entries, 0),
            lbuf@ + enc_locs(entries.skip(i as int), sym_done as int) == enc_locs(entries, 0),
            fbuf@ + enc_funcs(entries.skip(i as int), sym_done as int, str_done as int)
                == enc_funcs(entries, 0, 0),
            tbuf@ + enc_strs(entries.skip(i as int)) == enc_strs(entries),
        decreases n - i,
    {
        let ghost sym0 = sym_done as int;
        let ghost str0 = str_done as int;
        let f = report.frame_at(i);
        let c = report.count_at(i);
        let flen = f.stacks.len();
        proof {
            report.lemma_wf_sums();
            lemma_entries_skip(entries, i as int);
            lemma_sum_syms_cons(entries[i as int], entries.skip(i as int + 1));
            lemma_sum_strs_cons(entries[i as int], entries.skip(i as int + 1));
            lemma_sum_syms_nonneg(entries.skip(i as int + 1));
            lemma_sum_strs_nonneg(entries.skip(i as int + 1));
            lemma_frame_strc_nonneg(f@);
            assert(sym0 + flen <= report.sym_total() as int);
            assert(str0 + frame_strc(f@) <= report.str_total() as int);
            assert(f@.skip(0) =~= f@);
            assert(f@.take(0) =~= Seq::<SymbolView>::empty());
        }
        let ghost sbuf0 = sbuf@;
        let ghost lbuf0 = lbuf@;
        let ghost fbuf0 = fbuf@;
        let ghost tbuf0 = tbuf@;
        let mut body: Vec<u8> = Vec::new();
        proof {
            assert(body@ + enc_loc_ids(flen as int, sym0) =~= enc_loc_ids(flen as int, sym0));
        }
        let mut d: usize = 0;
        while d < flen
            invariant
                flen == f@.len(),
                d <= flen,
                sym_done as int == sym0 + d,
                str_done as int == str0 + frame_strc(f@.take(d as int)),
                sym0 + flen <= u64::MAX,
                str0 + frame_strc(f@) <= u64::MAX - 3,
                str0 >= 0,
                sym0 >= 0,
                body@ + enc_loc_ids(flen - d, sym_done as int) == enc_loc_ids(flen as int, sym0),
                lbuf@ + enc_locs_frame(f@.skip(d as int), sym_done as int) == lbuf0
                    + enc_locs_frame(f@, sym0),
                fbuf@ + enc_funcs_frame(f@.skip(d as int), sym_done as int, str_done as int)
                    == fbuf0 + enc_funcs_frame(f@, sym0, str0),
                tbuf@ + enc_strs_frame(f@.skip(d as int)) == tbuf0 + enc_strs_frame(f@),
            decreases flen - d,
        {
            proof {
                lemma_frame_skip(f@, d as int);
                lemma_frame_strc_take_step(f@, d as int);
                lemma_frame_strc_prefix_le(f@, d as int + 1);
                lemma_frame_strc_nonneg(f@.take(d as int));
            }
            let s = &f.stacks[d];
            let id = sym_done + 1;
            // sample: one location id
            push_rep_uint(&mut body, 1, id);
            // location table entry
            let mut line_body: Vec<u8> = Vec::new();
            push_uint_field(&mut line_body, 1, id);
            match s.line {
                Some(l) => push_uint_field(&mut line_body, 2, l),
                None => (),
            }
            let mut loc_body: Vec<u8> = Vec::new();
            push_uint_field(&mut loc_body, 1, id);
            push_delim(&mut loc_body, 4, &line_body);
            push_delim(&mut lbuf, 4, &loc_body);
            proof {
                assert(line_body@ =~= enc_uint_field(1, id) + (match f@[d as int].line {
                    Some(l) => enc_uint_field(2, l),
                    None => Seq::<u8>::empty(),
                }));
                assert(loc_body@ =~= enc_uint_field(1, id) + enc_line(id, f@[d as int].line));
            }
            // function table entry
            let name_idx: u64 = match &s.name {
                Some(_) => 3 + str_done,
                None => 0,
            };
            let file_idx: u64 = match &s.file {
                Some(_) => {
                    match &s.name {
                        Some(_) => 3 + str_done + 1,
                        None => 3 + str_done,
                    }
                },
                None => 0,
            };
            let mut func_body: Vec<u8> = Vec::new();
            push_uint_field(&mut func_body, 1, id);
            push_uint_field(&mut func_body, 2, name_idx);
            push_uint_field(&mut func_body, 4, file_idx);
            push_delim(&mut fbuf, 5, &func_body);
            // string table entries
            let mut appended: u64 = 0;
            match &s.name {
                Some(nm) => {
                    push_delim(&mut tbuf, 6, nm);
                    appended = appended + 1;
                },
                None => (),
            }
            match &s.file {
                Some(fl) => {
                    push_delim(&mut tbuf, 6, fl);
                    appended = appended + 1;
                },
                None => (),
            }
            proof {
                assert(name_idx == sym_name_idx(f@[d as int], str_done as int));
                assert(file_idx == sym_file_idx(f@[d as int], str_done as int));
                assert(func_body@ =~= enc_uint_field(1, id) + enc_uint_field(2, name_idx)
                    + enc_uint_field(4, file_idx));
                assert(appended == sym_strc(f@[d as int]));
            }
            sym_done = sym_done + 1;
            str_done = str_done + appended;
            d += 1;
            proof {
                assert(body@ + enc_loc_ids(flen - d, sym_done as int) =~= enc_loc_ids(
                    flen as int,
                    sym0,
                ));
                assert(lbuf@ + enc_locs_frame(f@.skip(d as int), sym_done as int) =~= lbuf0
                    + enc_locs_frame(f@, sym0));
                assert(fbuf@ + enc_funcs_frame(f@.skip(d as int), sym_done as int, str_done as int)
                    =~= fbuf0 + enc_funcs_frame(f@, sym0, str0));
                assert(tbuf@ + enc_strs_frame(f@.skip(d as int)) =~= tbuf0 + enc_strs_frame(f@));
            }
        }
        proof {
            assert(f@.skip(flen as int) =~= Seq::<SymbolView>::empty());
            assert(enc_loc_ids(0, sym_done as int) =~= Seq::<u8>::empty());
            assert(body@ =~= enc_loc_ids(flen as int, sym0));
            assert(lbuf@ =~= lbuf0 + enc_locs_frame(f@, sym0));
            assert(fbuf@ =~= fbuf0 + enc_funcs_frame(f@, sym0, str0));
            assert(tbuf@ =~= tbuf0 + enc_strs_frame(f@));
        }
        push_rep_uint(&mut body, 2, c);
        push_delim(&mut sbuf, 2, &body);
        proof {
            assert(body@ =~= enc_loc_ids(flen as int, sym0) + enc_rep_uint(2, c));
            assert(sbuf@ =~= sbuf0 + enc_sample(f@, sym0, c));
            lemma_entries_skip(entries, i as int);
            assert(enc_samples(entries.skip(i as int), sym0) == enc_sample(f@, sym0, c)
                + enc_samples(entries.skip(i as int + 1), sym0 + flen));
            assert(enc_locs(entries.skip(i as int), sym0) == enc_locs_frame(f@, sym0) + enc_locs(
                entries.skip(i as int + 1),
                sym0 + flen,
            ));
            assert(enc_funcs(entries.skip(i as int), sym0, str0) == enc_funcs_frame(f@, sym0, str0)
                + enc_funcs(entries.skip(i as int + 1), sym0 + flen, str0 + frame_strc(f@)));
            assert(enc_strs(entries.skip(i as int)) == enc_strs_frame(f@) + enc_strs(
                entries.skip(i as int + 1),
            ));
        }
        i += 1;
        proof {
            assert(sbuf@ + enc_samples(entries.skip(i as int), sym_done as int) =~= enc_samples(
                entries,
                0,
            ));
            assert(lbuf@ + enc_locs(entries.skip(i as int), sym_done as int) =~= enc_locs(
                entries,
                0,
            ));
            assert(fbuf@ + enc_funcs(entries.skip(i as int), sym_done as int, str_done as int)
                =~= enc_funcs(entries, 0, 0));
            assert(tbuf@ + enc_strs(entries.skip(i as int)) =~= enc_strs(entries));
        }
    }
    proof {
        assert(entries.skip(n as int) =~= Seq::<(FrameView, u64)>::empty());
        assert(sbuf@ =~= enc_samples(entries, 0));
        assert(lbuf@ =~= enc_locs(entries, 0));
        assert(fbuf@ =~= enc_funcs(entries, 0, 0));
        assert(tbuf@ =~= enc_strs(entries));
    }
    let mut out: Vec<u8> = Vec::new();
    let mut st_body: Vec<u8> = Vec::new();
    push_uint_field(&mut st_body, 1, 1);
    push_uint_field(&mut st_body, 2, 2);
    push_delim(&mut out, 1, &st_body);
    push_bytes(&mut out, &sbuf);
    push_bytes(&mut out, &lbuf);
    push_bytes(&mut out, &fbuf);
    let empty_body: Vec<u8> = Vec::new();
    push_delim(&mut out, 6, &empty_body);
    let samples_lab = samples_label_bytes();
    push_delim(&mut out, 6, &samples_lab);
    let count_lab = count_label_bytes();
    push_delim(&mut out, 6, &count_lab);
    push_bytes(&mut out, &tbuf);
    push_uint_field(&mut out, 9, timing.start_time_nanos);
    push_uint_field(&mut out, 10, timing.duration_nanos);
    push_uint_field(&mut out, 12, timing.period_nanos);
    proof {
        assert(st_body@ =~= enc_uint_field(1, 1) + enc_uint_field(2, 2));
        assert(out@ =~= spec_profile_bytes(
            entries,
            timing.start_time_nanos,
            timing.duration_nanos,
            timing.period_nanos,
        ));
    }
    out
}

} // verus!
