//! The round-trip laws of the TLV formats: the bytes that a constructor
//! writes parse back to the very record it made, alone or followed by more
//! bytes, and a run of such records parses back to the same run.

use vstd::prelude::*;

use crate::smart_card_atr::{
    lemma_prefix_facts, lemma_step_facts, spec_ber_constructed, spec_children_data,
    ber_record_at, ber_tag_len, ber_tag_scan, spec_any_prefix, spec_ber, spec_ber_prefix,
    spec_compact, spec_compact_prefix, spec_parse, spec_parse_with_encoding, spec_prefix,
    spec_rebuild, spec_records, spec_simple, spec_simple_prefix, spec_step, TlvEncoding,
    TlvRecordView,
};
use crate::tlv_format::{
    be_value, ber_data, ber_length_field, compact_data, lemma_be_value_of_min_be_bytes,
    lemma_min_be_bytes_len, lemma_pow256_8, min_be_bytes, pow256, simple_data,
};

verus! {

/// Whether the bytes of `tag` read back as a BER tag of the same length: a
/// single byte whose low five bits are not all set, or a first byte with them
/// all set, at most 8 bytes in all, the last alone without the high bit.
pub open spec fn is_parsable_ber_tag(tag: u64) -> bool {
    let b = min_be_bytes(tag as nat);
    &&& tag != 0
    &&& if b.len() == 1 {
        b[0] % 32 != 31
    } else {
        &&& b[0] % 32 == 31
        &&& b.len() <= 8
        &&& b.last() < 128
        &&& forall|i: int| 1 <= i < b.len() - 1 ==> b[i] >= 128
    }
}

/// Whether a record reads back from its own bytes: it is what its
/// constructor makes, a SIMPLE tag is neither `0x00` nor `0xFF` (the parser
/// refuses those), and a BER tag is parsable.
pub open spec fn reads_back(r: TlvRecordView) -> bool {
    &&& spec_rebuild(r) == Some(r)
    &&& r.value.len() < pow256(8)
    &&& match r.encoding {
        TlvEncoding::Ber => is_parsable_ber_tag(r.tag),
        TlvEncoding::Simple => r.tag != 0 && r.tag != 0xFF,
        TlvEncoding::Compact => true,
    }
}

/// The bytes of the records one after the other.
pub open spec fn concat_data(rs: Seq<TlvRecordView>) -> Seq<u8>
    decreases rs.len(),
{
    if rs.len() == 0 {
        Seq::empty()
    } else {
        rs[0].data + concat_data(rs.drop_first())
    }
}

proof fn lemma_scan_reaches(data: Seq<u8>, k: nat, t: nat)
    requires
        1 <= k < t <= 8,
        t <= data.len(),
        forall|j: int| k <= j < t - 1 ==> data[j] >= 128,
        data[t - 1] < 128,
    ensures
        ber_tag_scan(data, k) == Some(t),
    decreases t - k,
{
    if k + 1 < t {
        lemma_scan_reaches(data, k + 1, t);
    }
}

proof fn lemma_compact_prefix_of(tag: u8, value: Seq<u8>, rest: Seq<u8>)
    requires
        spec_compact(tag, value) is Some,
    ensures
        spec_compact_prefix(compact_data(tag, value) + rest) == Some(
            (spec_compact(tag, value).unwrap(), compact_data(tag, value).len() as int),
        ),
{
    let d = compact_data(tag, value) + rest;
    let len = value.len() as int;
    let h = (tag * 16 + len) as u8;
    assert(d[0] == h);
    assert(h % 16 == len && h / 16 == tag) by (nonlinear_arith)
        requires
            h == tag * 16 + len,
            tag <= 15,
            0 <= len <= 15,
    ;
    assert(d.subrange(1, 1 + len) =~= value);
}

proof fn lemma_simple_prefix_of(tag: u8, value: Seq<u8>, rest: Seq<u8>)
    requires
        spec_simple(tag, value) is Some,
        tag != 0,
        tag != 0xFF,
    ensures
        spec_simple_prefix(simple_data(tag, value) + rest) == Some(
            (spec_simple(tag, value).unwrap(), simple_data(tag, value).len() as int),
        ),
{
    let d = simple_data(tag, value) + rest;
    let len = value.len() as int;
    if len < 255 {
        assert(d.subrange(2, 2 + len) =~= value);
    } else {
        assert((len / 256) as u8 as int * 256 + (len % 256) as u8 as int == len);
        assert(d.subrange(4, 4 + len) =~= value);
    }
}

proof fn lemma_ber_prefix_of(tag: u64, value: Seq<u8>, rest: Seq<u8>)
    requires
        is_parsable_ber_tag(tag),
        value.len() < pow256(8),
    ensures
        spec_ber_prefix(ber_data(tag, value) + rest) == Some(
            (spec_ber(tag, value).unwrap(), ber_data(tag, value).len() as int),
        ),
{
    let b = min_be_bytes(tag as nat);
    let lf = ber_length_field(value.len());
    let d = ber_data(tag, value) + rest;
    let tl = b.len();
    assert(d =~= b + (lf + (value + rest)));
    lemma_pow256_8();
    lemma_min_be_bytes_len(tag as nat, 8);
    lemma_be_value_of_min_be_bytes(tag as nat);
    if tl == 1 {
        assert(d[0] == b[0]);
    } else {
        assert forall|j: int| 1 <= j < tl - 1 implies d[j] >= 128 by {
            assert(d[j] == b[j]);
        }
        assert(d[tl - 1] == b[tl - 1]);
        lemma_scan_reaches(d, 1, tl);
    }
    assert(ber_tag_len(d) == Some(tl));
    assert(d.subrange(0, tl as int) =~= b);
    let len = value.len();
    if len < 128 {
        assert(d[tl as int] == len as u8);
        assert(d.subrange(tl + 1 as int, tl + 1 + len as int) =~= value);
        assert(ber_record_at(d, tl, 1, len) == Some(
            (spec_ber(tag, value).unwrap(), ber_data(tag, value).len() as int),
        ));
    } else {
        let m = min_be_bytes(len);
        lemma_min_be_bytes_len(len, 8);
        lemma_be_value_of_min_be_bytes(len);
        let count = m.len();
        assert(d[tl as int] == (128 + count) as u8);
        assert(d.subrange(tl + 1 as int, tl + 1 + count as int) =~= m);
        assert(d.subrange(tl + 1 + count as int, tl + 1 + count + len as int) =~= value);
        assert(ber_record_at(d, tl, 1 + count, len) == Some(
            (spec_ber(tag, value).unwrap(), ber_data(tag, value).len() as int),
        ));
    }
}

/// A record that reads back is found, unchanged and using exactly its own
/// bytes, at the start of its bytes followed by any others.
pub proof fn lemma_prefix_of_record(r: TlvRecordView, rest: Seq<u8>)
    requires
        reads_back(r),
    ensures
        spec_prefix(r.encoding, r.data + rest) == Some((r, r.data.len() as int)),
{
    match r.encoding {
        TlvEncoding::Ber => {
            lemma_ber_prefix_of(r.tag, r.value, rest);
        },
        TlvEncoding::Simple => {
            lemma_simple_prefix_of(r.tag as u8, r.value, rest);
        },
        TlvEncoding::Compact => {
            lemma_compact_prefix_of(r.tag as u8, r.value, rest);
        },
    }
}

/// Law: parsing the bytes of a record that reads back, with the record's own
/// encoding, gives back that record.
pub proof fn law_parse_with_encoding_round_trip(r: TlvRecordView)
    requires
        reads_back(r),
    ensures
        spec_parse_with_encoding(r.encoding, r.data) == Some(r),
{
    lemma_prefix_of_record(r, Seq::empty());
    assert(r.data + Seq::<u8>::empty() =~= r.data);
}

/// Law: the BER record made from a parsable tag and any value is what
/// `TlvRecord::parse`, which tries BER first, finds in its bytes.
pub proof fn law_parse_finds_ber_record(tag: u64, value: Seq<u8>)
    requires
        is_parsable_ber_tag(tag),
        value.len() < pow256(8),
    ensures
        spec_parse(ber_data(tag, value)) == spec_ber(tag, value),
{
    lemma_ber_prefix_of(tag, value, Seq::empty());
    assert(ber_data(tag, value) + Seq::<u8>::empty() =~= ber_data(tag, value));
}

/// Law: the bytes of records that read back, one after the other, parse as a
/// sequence of their common encoding back to the same records.
pub proof fn law_sequence_round_trip(encoding: TlvEncoding, rs: Seq<TlvRecordView>)
    requires
        forall|i: int| 0 <= i < rs.len() ==> reads_back(#[trigger] rs[i]) && rs[i].encoding
            == encoding,
    ensures
        spec_records(Some(encoding), concat_data(rs)) == Some(rs),
    decreases rs.len(),
{
    lemma_sequence_round_trip_step(Some(encoding), rs);
}

/// Law: the bytes of BER records that read back, one after the other, parse
/// back to the same records when each record's encoding is guessed (BER is
/// tried first).
pub proof fn law_sequence_with_fallback_round_trip(rs: Seq<TlvRecordView>)
    requires
        forall|i: int| 0 <= i < rs.len() ==> reads_back(#[trigger] rs[i]) && rs[i].encoding
            == TlvEncoding::Ber,
    ensures
        spec_records(None, concat_data(rs)) == Some(rs),
    decreases rs.len(),
{
    lemma_sequence_round_trip_step(None, rs);
}

proof fn lemma_sequence_round_trip_step(encoding: Option<TlvEncoding>, rs: Seq<TlvRecordView>)
    requires
        forall|i: int|
            0 <= i < rs.len() ==> reads_back(#[trigger] rs[i]) && match encoding {
                Some(e) => rs[i].encoding == e,
                None => rs[i].encoding == TlvEncoding::Ber,
            },
    ensures
        spec_records(encoding, concat_data(rs)) == Some(rs),
    decreases rs.len(),
{
    if rs.len() == 0 {
        assert(concat_data(rs) =~= Seq::<u8>::empty());
        assert(rs =~= Seq::<TlvRecordView>::empty());
    } else {
        let r = rs[0];
        let tail = rs.drop_first();
        assert forall|i: int| 0 <= i < tail.len() implies reads_back(#[trigger] tail[i]) && match encoding {
            Some(e) => tail[i].encoding == e,
            None => tail[i].encoding == TlvEncoding::Ber,
        } by {
            assert(tail[i] == rs[i + 1]);
        }
        lemma_sequence_round_trip_step(encoding, tail);
        let d = concat_data(rs);
        assert(d == r.data + concat_data(tail));
        lemma_prefix_of_record(r, concat_data(tail));
        assert(spec_step(encoding, d) == Some((r, r.data.len() as int)));
        assert(r.data.len() > 0) by {
            lemma_data_nonempty(r);
        }
        assert(d.subrange(r.data.len() as int, d.len() as int) =~= concat_data(tail));
        assert(seq![r] + tail =~= rs);
    }
}

proof fn lemma_data_nonempty(r: TlvRecordView)
    requires
        spec_rebuild(r) == Some(r),
    ensures
        r.data.len() > 0,
{
    match r.encoding {
        TlvEncoding::Ber => {
            lemma_pow256_8();
            lemma_min_be_bytes_len(r.tag as nat, 8);
        },
        _ => {},
    }
}

/// The number of value bytes of all the records together.
pub open spec fn total_value_len(rs: Seq<TlvRecordView>) -> nat
    decreases rs.len(),
{
    if rs.len() == 0 {
        0
    } else {
        rs[0].value.len() + total_value_len(rs.drop_first())
    }
}

/// Law: the records parsed from `data` hold no more value bytes than `data`
/// has; each record also spends at least one byte on its header.
pub proof fn law_sequence_values_fit(encoding: Option<TlvEncoding>, data: Seq<u8>)
    ensures
        spec_records(encoding, data) matches Some(rs) ==> total_value_len(rs) + rs.len()
            <= data.len(),
    decreases data.len(),
{
    if data.len() > 0 {
        lemma_step_facts(encoding, data);
        if let Some((r, n)) = spec_step(encoding, data) {
            if 0 < n <= data.len() {
                let rest = data.subrange(n, data.len() as int);
                law_sequence_values_fit(encoding, rest);
                if let Some(tail) = spec_records(encoding, rest) {
                    let rs = seq![r] + tail;
                    assert(rs[0] == r);
                    assert(rs.drop_first() =~= tail);
                }
            }
        }
    }
}

/// Whether the step of the sequence parser reads the record `r` from the
/// start of `bytes`, using `n` of them.
#[verifier::opaque]
pub open spec fn step_reads(
    encoding: Option<TlvEncoding>,
    bytes: Seq<u8>,
    r: TlvRecordView,
    n: int,
) -> bool {
    spec_step(encoding, bytes) == Some((r, n))
}

/// Whether `pos` cuts `data` into the records `rs`, read one at a time: the
/// cuts start at 0, end at the length of `data` and grow strictly, and the
/// step at each cut reads record `rs[i]` from exactly the bytes up to the
/// next cut.
pub open spec fn is_record_split(
    encoding: Option<TlvEncoding>,
    data: Seq<u8>,
    rs: Seq<TlvRecordView>,
    pos: Seq<int>,
) -> bool {
    &&& pos.len() == rs.len() + 1
    &&& pos[0] == 0
    &&& pos[rs.len() as int] == data.len()
    &&& forall|i: int| 0 <= i <= rs.len() ==> 0 <= #[trigger] pos[i] <= data.len()
    &&& forall|i: int| 0 <= i < rs.len() ==> #[trigger] pos[i] < pos[i + 1]
    &&& forall|i: int|
        0 <= i < rs.len() ==> step_reads(
            encoding,
            data.subrange(pos[i], data.len() as int),
            #[trigger] rs[i],
            pos[i + 1] - pos[i],
        )
}

proof fn lemma_records_unfold(encoding: Option<TlvEncoding>, data: Seq<u8>)
    requires
        data.len() > 0,
        spec_records(encoding, data) is Some,
    ensures
        spec_step(encoding, data) matches Some((r, n)) && 0 < n <= data.len() && step_reads(
            encoding,
            data,
            r,
            n,
        ) && spec_records(encoding, data.subrange(n, data.len() as int)) is Some && spec_records(
            encoding,
            data,
        )->0 == seq![r] + spec_records(encoding, data.subrange(n, data.len() as int))->0,
{
    reveal(step_reads);
}

proof fn lemma_records_give_split(encoding: Option<TlvEncoding>, data: Seq<u8>) -> (pos: Seq<int>)
    requires
        spec_records(encoding, data) is Some,
    ensures
        is_record_split(encoding, data, spec_records(encoding, data)->0, pos),
    decreases data.len(),
{
    let rs = spec_records(encoding, data)->0;
    if data.len() == 0 {
        assert(rs =~= Seq::<TlvRecordView>::empty());
        let pos = seq![0int];
        assert(pos[0] == 0);
        pos
    } else {
        lemma_records_unfold(encoding, data);
        let (r, n) = spec_step(encoding, data)->0;
        let rest = data.subrange(n, data.len() as int);
        let tail = spec_records(encoding, rest)->0;
        let pos_rest = lemma_records_give_split(encoding, rest);
        lemma_shifted_split(encoding, data, r, n, tail, pos_rest)
    }
}

proof fn lemma_shifted_split(
    encoding: Option<TlvEncoding>,
    data: Seq<u8>,
    r: TlvRecordView,
    n: int,
    tail: Seq<TlvRecordView>,
    pos_rest: Seq<int>,
) -> (pos: Seq<int>)
    requires
        0 < n <= data.len(),
        step_reads(encoding, data, r, n),
        is_record_split(encoding, data.subrange(n, data.len() as int), tail, pos_rest),
    ensures
        is_record_split(encoding, data, seq![r] + tail, pos),
{
    let rest = data.subrange(n, data.len() as int);
    let rs = seq![r] + tail;
    let pos = seq![0int] + pos_rest.map_values(|x: int| x + n);
    assert(pos.len() == rs.len() + 1);
    assert(pos[0] == 0);
    assert(pos[rs.len() as int] == pos_rest[tail.len() as int] + n);
    assert forall|i: int| 0 <= i <= rs.len() implies 0 <= #[trigger] pos[i] <= data.len() by {
        if i > 0 {
            assert(pos[i] == pos_rest[i - 1] + n);
            assert(0 <= pos_rest[i - 1] <= rest.len());
        }
    }
    assert forall|i: int|
        0 <= i < rs.len() implies pos[i] < pos[i + 1] && step_reads(
            encoding,
            data.subrange(pos[i], data.len() as int),
            #[trigger] rs[i],
            pos[i + 1] - pos[i],
        ) by {
        assert(pos[i + 1] == pos_rest[i] + n);
        if i == 0 {
            assert(data.subrange(0, data.len() as int) =~= data);
            assert(pos_rest[0] == 0);
        } else {
            assert(rs[i] == tail[i - 1]);
            assert(pos[i] == pos_rest[i - 1] + n);
            assert(0 <= pos_rest[i - 1] <= rest.len());
            assert(pos_rest[i - 1] < pos_rest[i] && step_reads(
                encoding,
                rest.subrange(pos_rest[i - 1], rest.len() as int),
                tail[i - 1],
                pos_rest[i] - pos_rest[i - 1],
            ));
            assert(data.subrange(pos[i], data.len() as int) =~= rest.subrange(
                pos_rest[i - 1],
                rest.len() as int,
            ));
        }
    }
    pos
}

proof fn lemma_cuts_grow(
    encoding: Option<TlvEncoding>,
    data: Seq<u8>,
    rs: Seq<TlvRecordView>,
    pos: Seq<int>,
    j: int,
    k: int,
)
    requires
        is_record_split(encoding, data, rs, pos),
        0 <= j <= k <= rs.len(),
    ensures
        pos[j] <= pos[k],
    decreases k - j,
{
    if j < k {
        assert(pos[j] < pos[j + 1]);
        lemma_cuts_grow(encoding, data, rs, pos, j + 1, k);
    }
}

proof fn lemma_records_fold(
    encoding: Option<TlvEncoding>,
    data: Seq<u8>,
    r: TlvRecordView,
    n: int,
    tail: Seq<TlvRecordView>,
)
    requires
        0 < n <= data.len(),
        step_reads(encoding, data, r, n),
        spec_records(encoding, data.subrange(n, data.len() as int)) == Some(tail),
    ensures
        spec_records(encoding, data) == Some(seq![r] + tail),
{
    reveal(step_reads);
}

proof fn lemma_dropped_split(
    encoding: Option<TlvEncoding>,
    data: Seq<u8>,
    rs: Seq<TlvRecordView>,
    pos: Seq<int>,
) -> (pos_rest: Seq<int>)
    requires
        is_record_split(encoding, data, rs, pos),
        rs.len() > 0,
    ensures
        is_record_split(encoding, data.subrange(pos[1], data.len() as int), rs.drop_first(), pos_rest),
{
    let n = pos[1];
    let rest = data.subrange(n, data.len() as int);
    let tail = rs.drop_first();
    let pos_rest = pos.drop_first().map_values(|x: int| x - n);
    assert(0 <= pos[1] <= data.len());
    assert(pos_rest.len() == tail.len() + 1);
    assert(pos_rest[0] == pos[1] - n);
    assert(pos_rest[tail.len() as int] == pos[rs.len() as int] - n);
    assert forall|i: int| 0 <= i <= tail.len() implies 0 <= #[trigger] pos_rest[i]
        <= rest.len() by {
        assert(pos_rest[i] == pos[i + 1] - n);
        assert(0 <= pos[i + 1] <= data.len());
        lemma_cuts_grow(encoding, data, rs, pos, 1, i + 1);
    }
    assert forall|i: int|
        0 <= i < tail.len() implies pos_rest[i] < pos_rest[i + 1] && step_reads(
            encoding,
            rest.subrange(pos_rest[i], rest.len() as int),
            #[trigger] tail[i],
            pos_rest[i + 1] - pos_rest[i],
        ) by {
        assert(tail[i] == rs[i + 1]);
        assert(pos_rest[i] == pos[i + 1] - n);
        assert(pos_rest[i + 1] == pos[i + 2] - n);
        assert(0 <= pos[i + 1] <= data.len());
        assert(pos[i + 1] < pos[i + 2] && step_reads(
            encoding,
            data.subrange(pos[i + 1], data.len() as int),
            rs[i + 1],
            pos[i + 2] - pos[i + 1],
        ));
        lemma_cuts_grow(encoding, data, rs, pos, 1, i + 1);
        assert(rest.subrange(pos_rest[i], rest.len() as int) =~= data.subrange(
            pos[i + 1],
            data.len() as int,
        ));
    }
    pos_rest
}

proof fn lemma_split_gives_records(
    encoding: Option<TlvEncoding>,
    data: Seq<u8>,
    rs: Seq<TlvRecordView>,
    pos: Seq<int>,
)
    requires
        is_record_split(encoding, data, rs, pos),
    ensures
        spec_records(encoding, data) == Some(rs),
    decreases rs.len(),
{
    if rs.len() == 0 {
        assert(rs =~= Seq::<TlvRecordView>::empty());
    } else {
        let n = pos[1];
        assert(0 < pos[1] <= data.len() && step_reads(
            encoding,
            data.subrange(pos[0], data.len() as int),
            rs[0],
            pos[1] - pos[0],
        ));
        assert(data.subrange(0, data.len() as int) =~= data);
        let tail = rs.drop_first();
        let pos_rest = lemma_dropped_split(encoding, data, rs, pos);
        lemma_split_gives_records(encoding, data.subrange(n, data.len() as int), tail, pos_rest);
        lemma_records_fold(encoding, data, rs[0], n, tail);
        assert(seq![rs[0]] + tail =~= rs);
    }
}

/// Law: `data` parses as the sequence `rs` exactly when it can be cut into
/// pieces, one per record, such that each step reads its record from its
/// own piece and nothing is left over; so no step failed and no partial list
/// comes back, and with a fixed encoding every record has that encoding.
pub proof fn law_sequence_is_split(
    encoding: Option<TlvEncoding>,
    data: Seq<u8>,
    rs: Seq<TlvRecordView>,
)
    ensures
        spec_records(encoding, data) == Some(rs) <==> exists|pos: Seq<int>|
            is_record_split(encoding, data, rs, pos),
        spec_records(encoding, data) == Some(rs) ==> (encoding matches Some(e) ==> forall|i: int|
            0 <= i < rs.len() ==> (#[trigger] rs[i]).encoding == e),
{
    if spec_records(encoding, data) == Some(rs) {
        let pos = lemma_records_give_split(encoding, data);
        assert forall|i: int| 0 <= i < rs.len() implies encoding matches Some(e) ==> (
        #[trigger] rs[i]).encoding == e by {
            let bytes = data.subrange(pos[i], data.len() as int);
            assert(step_reads(encoding, bytes, rs[i], pos[i + 1] - pos[i]));
            reveal(step_reads);
            lemma_step_facts(encoding, bytes);
        }
    }
    if exists|pos: Seq<int>| is_record_split(encoding, data, rs, pos) {
        let pos = choose|pos: Seq<int>| is_record_split(encoding, data, rs, pos);
        lemma_split_gives_records(encoding, data, rs, pos);
    }
}

/// Law: a single-record parse uses all of its input. What
/// `parse_with_encoding` gives is the record the prefix parser of that
/// encoding reads using every byte, and bytes left after the first record
/// give `None`. What `parse` gives is read, in the same way, by the prefix
/// parser of the record's own encoding, and it is SIMPLE only when BER reads
/// no whole record, COMPACT only when neither BER nor SIMPLE does.
pub proof fn law_single_record_uses_all_input(encoding: TlvEncoding, data: Seq<u8>)
    ensures
        spec_parse_with_encoding(encoding, data) matches Some(r) ==> spec_prefix(encoding, data)
            == Some((r, data.len() as int)) && r.encoding == encoding,
        spec_prefix(encoding, data) matches Some((r, n)) ==> (n < data.len()
            ==> spec_parse_with_encoding(encoding, data) is None),
        spec_parse(data) matches Some(r) ==> spec_prefix(r.encoding, data) == Some(
            (r, data.len() as int),
        ),
        spec_parse(data) matches Some(r) ==> (r.encoding != TlvEncoding::Ber
            ==> spec_parse_with_encoding(TlvEncoding::Ber, data) is None),
        spec_parse(data) matches Some(r) ==> (r.encoding == TlvEncoding::Compact
            ==> spec_parse_with_encoding(TlvEncoding::Simple, data) is None),
        spec_parse(data) is None <==> (spec_parse_with_encoding(TlvEncoding::Ber, data) is None
            && spec_parse_with_encoding(TlvEncoding::Simple, data) is None
            && spec_parse_with_encoding(TlvEncoding::Compact, data) is None),
{
    lemma_prefix_facts(encoding, data);
    lemma_prefix_facts(TlvEncoding::Ber, data);
    lemma_prefix_facts(TlvEncoding::Simple, data);
    lemma_prefix_facts(TlvEncoding::Compact, data);
}

/// Law: a step of the sequence parser without a fixed encoding reads the
/// record that the prefix parser of the record's own encoding reads, and it
/// prefers BER, then SIMPLE, then COMPACT: the record is SIMPLE only when no
/// BER record starts the bytes, and COMPACT only when neither a BER nor a
/// SIMPLE record does. It fails only when none of the three reads a record.
pub proof fn law_fallback_step_prefers_ber_then_simple(data: Seq<u8>)
    ensures
        spec_step(None, data) matches Some((r, n)) ==> spec_prefix(r.encoding, data) == Some(
            (r, n),
        ),
        spec_step(None, data) matches Some((r, n)) ==> (r.encoding != TlvEncoding::Ber
            ==> spec_ber_prefix(data) is None),
        spec_step(None, data) matches Some((r, n)) ==> (r.encoding == TlvEncoding::Compact
            ==> spec_simple_prefix(data) is None),
        spec_step(None, data) is None <==> (spec_ber_prefix(data) is None && spec_simple_prefix(
            data,
        ) is None && spec_compact_prefix(data) is None),
{
    lemma_prefix_facts(TlvEncoding::Ber, data);
    lemma_prefix_facts(TlvEncoding::Simple, data);
    lemma_prefix_facts(TlvEncoding::Compact, data);
}

/// Law: the bytes of SIMPLE records that read back, one after the other,
/// parse back to the same records when each record's encoding is guessed,
/// as long as no BER record starts the bytes at any record's start.
pub proof fn law_sequence_with_fallback_simple_round_trip(rs: Seq<TlvRecordView>)
    requires
        forall|i: int|
            0 <= i < rs.len() ==> reads_back(#[trigger] rs[i]) && rs[i].encoding
                == TlvEncoding::Simple,
        forall|i: int| 0 <= i < rs.len() ==> spec_ber_prefix(concat_data(#[trigger] rs.skip(i))) is None,
    ensures
        spec_records(None, concat_data(rs)) == Some(rs),
    decreases rs.len(),
{
    if rs.len() == 0 {
        assert(concat_data(rs) =~= Seq::<u8>::empty());
        assert(rs =~= Seq::<TlvRecordView>::empty());
    } else {
        let r = rs[0];
        let tail = rs.drop_first();
        assert forall|i: int|
            0 <= i < tail.len() implies reads_back(#[trigger] tail[i]) && tail[i].encoding
                == TlvEncoding::Simple by {
            assert(tail[i] == rs[i + 1]);
        }
        assert forall|i: int| 0 <= i < tail.len() implies spec_ber_prefix(
            concat_data(#[trigger] tail.skip(i)),
        ) is None by {
            assert(tail.skip(i) =~= rs.skip(i + 1));
        }
        law_sequence_with_fallback_simple_round_trip(tail);
        let d = concat_data(rs);
        assert(d == r.data + concat_data(tail));
        assert(rs.skip(0) =~= rs);
        assert(spec_ber_prefix(d) is None);
        lemma_prefix_of_record(r, concat_data(tail));
        assert(spec_step(None, d) == Some((r, r.data.len() as int)));
        assert(r.data.len() > 0) by {
            lemma_data_nonempty(r);
        }
        assert(d.subrange(r.data.len() as int, d.len() as int) =~= concat_data(tail));
        assert(seq![r] + tail =~= rs);
    }
}

/// Law: a constructed BER record is the BER record over the children's
/// encodings. It exists exactly when its tag is not 0 and every child can be
/// made again; its value is the children's bytes one after the other, its
/// bytes are the tag's bytes, the BER length field of the value and the
/// value; and when its tag is parsable (and the value not absurdly long),
/// `parse` reads it back from its bytes.
pub proof fn law_ber_constructed_reads_back(tag: u64, children: Seq<TlvRecordView>)
    ensures
        spec_ber_constructed(tag, children) is Some <==> (tag != 0 && spec_children_data(
            children,
        ) is Some),
        spec_ber_constructed(tag, children) matches Some(p) ==> p.encoding == TlvEncoding::Ber
            && p.tag == tag && spec_children_data(children) == Some(p.value) && p.data
            == min_be_bytes(tag as nat) + ber_length_field(p.value.len()) + p.value,
        spec_ber_constructed(tag, children) matches Some(p) ==> (is_parsable_ber_tag(tag)
            && p.value.len() < pow256(8) ==> spec_parse(p.data) == Some(p)
            && spec_parse_with_encoding(TlvEncoding::Ber, p.data) == Some(p)),
{
    if let Some(p) = spec_ber_constructed(tag, children) {
        if is_parsable_ber_tag(tag) && p.value.len() < pow256(8) {
            law_parse_finds_ber_record(tag, p.value);
            lemma_ber_prefix_of(tag, p.value, Seq::empty());
            assert(p.data + Seq::<u8>::empty() =~= p.data);
        }
    }
}

} // verus!
