use vstd::prelude::*;
use vstd::slice::slice_subrange;

use crate::tlv_format::{
    be_value, ber_data, ber_length_field, compact_data, lemma_be_value_bound, lemma_be_value_step,
    lemma_min_be_bytes_u64, lemma_pow256_8, lemma_pow256_mono, min_be_bytes, pow256, simple_data,
};

verus! {

/// The `TKSmartCardProtocol` bit set.
#[derive(Debug, Clone, Copy, PartialEq, Eq, PartialOrd, Ord, Hash, Structural)]
pub struct SmartCardProtocol(pub u32);

impl SmartCardProtocol {
    /// No protocol (`NONE`).
    pub fn none() -> (r: Self)
        ensures
            r.0 == 0,
    {
        SmartCardProtocol(0)
    }

    /// The T=0 protocol, bit 0 (`T0`).
    pub fn t0() -> (r: Self)
        ensures
            r.0 == 1,
    {
        SmartCardProtocol(1)
    }

    /// The T=1 protocol, bit 1 (`T1`).
    pub fn t1() -> (r: Self)
        ensures
            r.0 == 2,
    {
        SmartCardProtocol(2)
    }

    /// The T=15 protocol, bit 15 (`T15`).
    pub fn t15() -> (r: Self)
        ensures
            r.0 == 0x8000,
    {
        SmartCardProtocol(0x8000)
    }

    /// Every protocol from T=0 to T=15, the low 16 bits (`ANY`).
    pub fn any() -> (r: Self)
        ensures
            r.0 == 0xFFFF,
    {
        SmartCardProtocol(0xFFFF)
    }

    /// Returns the raw bits.
    pub fn bits(self) -> (r: u32)
        ensures
            r == self.0,
    {
        self.0
    }

    /// Wraps raw bits, unchanged.
    pub fn from_bits(bits: u32) -> (r: Self)
        ensures
            r.0 == bits,
    {
        SmartCardProtocol(bits)
    }
}

/// Which of the `TKTLVRecord` encodings a record uses.
#[derive(Debug, Clone, Copy, PartialEq, Eq, Structural)]
pub enum TlvEncoding {
    Ber,
    Simple,
    Compact,
}

/// A TLV record: its encoding, tag and value, and `data`, the bytes that
/// encode the whole record.
#[derive(Debug, Clone, PartialEq, Eq)]
pub struct TlvRecord {
    pub encoding: TlvEncoding,
    pub tag: u64,
    pub value: Vec<u8>,
    pub data: Vec<u8>,
}

/// The mathematical value of a [`TlvRecord`].
#[verifier::ext_equal]
pub struct TlvRecordView {
    pub encoding: TlvEncoding,
    pub tag: u64,
    pub value: Seq<u8>,
    pub data: Seq<u8>,
}

impl View for TlvRecord {
    type V = TlvRecordView;

    open spec fn view(&self) -> TlvRecordView {
        TlvRecordView { encoding: self.encoding, tag: self.tag, value: self.value@, data: self.data@ }
    }
}

/// The view of an optional record.
pub open spec fn opt_view(r: Option<TlvRecord>) -> Option<TlvRecordView> {
    match r {
        Some(rec) => Some(rec@),
        None => None,
    }
}

/// The views of a sequence of records.
pub open spec fn views(s: Seq<TlvRecord>) -> Seq<TlvRecordView> {
    s.map_values(|r: TlvRecord| r@)
}

/// The BER record for `tag` and `value`; the framework refuses tag 0.
pub open spec fn spec_ber(tag: u64, value: Seq<u8>) -> Option<TlvRecordView> {
    if tag == 0 {
        None
    } else {
        Some(TlvRecordView { encoding: TlvEncoding::Ber, tag, value, data: ber_data(tag, value) })
    }
}

/// The SIMPLE record for `tag` and `value`; the framework refuses values over
/// 65535 bytes.
pub open spec fn spec_simple(tag: u8, value: Seq<u8>) -> Option<TlvRecordView> {
    if value.len() > 65535 {
        None
    } else {
        Some(
            TlvRecordView {
                encoding: TlvEncoding::Simple,
                tag: tag as u64,
                value,
                data: simple_data(tag, value),
            },
        )
    }
}

/// The COMPACT record for `tag` and `value`; the framework refuses tags above
/// 15 and values over 15 bytes.
pub open spec fn spec_compact(tag: u8, value: Seq<u8>) -> Option<TlvRecordView> {
    if tag > 15 || value.len() > 15 {
        None
    } else {
        Some(
            TlvRecordView {
                encoding: TlvEncoding::Compact,
                tag: tag as u64,
                value,
                data: compact_data(tag, value),
            },
        )
    }
}

/// The record that the framework makes again from a record's encoding, tag
/// and value; a SIMPLE or COMPACT tag must fit in one byte.
pub open spec fn spec_rebuild(r: TlvRecordView) -> Option<TlvRecordView> {
    match r.encoding {
        TlvEncoding::Ber => spec_ber(r.tag, r.value),
        TlvEncoding::Simple => if r.tag <= 255 {
            spec_simple(r.tag as u8, r.value)
        } else {
            None
        },
        TlvEncoding::Compact => if r.tag <= 255 {
            spec_compact(r.tag as u8, r.value)
        } else {
            None
        },
    }
}

/// `prefix` followed by the bytes in `rest`, if there are any.
pub open spec fn prepend_bytes(prefix: Seq<u8>, rest: Option<Seq<u8>>) -> Option<Seq<u8>> {
    match rest {
        Some(r) => Some(prefix + r),
        None => None,
    }
}

/// The concatenated encodings of the rebuilt children, or `None` when a child
/// cannot be rebuilt.
pub open spec fn spec_children_data(children: Seq<TlvRecordView>) -> Option<Seq<u8>>
    decreases children.len(),
{
    if children.len() == 0 {
        Some(Seq::empty())
    } else {
        match spec_rebuild(children[0]) {
            Some(first) => prepend_bytes(first.data, spec_children_data(children.drop_first())),
            None => None,
        }
    }
}

/// The constructed BER record under `tag` whose value is the encodings of
/// `children`.
pub open spec fn spec_ber_constructed(tag: u64, children: Seq<TlvRecordView>) -> Option<
    TlvRecordView,
> {
    match spec_children_data(children) {
        Some(value) => spec_ber(tag, value),
        None => None,
    }
}

fn push_min_be_bytes(out: &mut Vec<u8>, n: u64)
    ensures
        final(out)@ == old(out)@ + min_be_bytes(n as nat),
    decreases n,
{
    if n != 0 {
        push_min_be_bytes(out, n / 256);
        out.push((n % 256) as u8);
        proof {
            let m = min_be_bytes((n / 256) as nat);
            assert(min_be_bytes(n as nat) == m.push((n % 256) as u8));
            assert(out@ =~= old(out)@ + min_be_bytes(n as nat));
        }
    } else {
        assert(out@ =~= old(out)@ + min_be_bytes(n as nat));
    }
}

fn append_bytes(out: &mut Vec<u8>, bytes: &[u8])
    ensures
        final(out)@ == old(out)@ + bytes@,
{
    let mut i: usize = 0;
    while i < bytes.len()
        invariant
            i <= bytes@.len(),
            out@ == old(out)@ + bytes@.subrange(0, i as int),
        decreases bytes.len() - i,
    {
        out.push(bytes[i]);
        i = i + 1;
        assert(out@ =~= old(out)@ + bytes@.subrange(0, i as int));
    }
    assert(bytes@.subrange(0, i as int) =~= bytes@);
}

fn push_ber_length(out: &mut Vec<u8>, len: u64)
    ensures
        final(out)@ == old(out)@ + ber_length_field(len as nat),
{
    if len < 128 {
        out.push(len as u8);
        assert(out@ =~= old(out)@ + ber_length_field(len as nat));
    } else {
        let mut bytes: Vec<u8> = Vec::new();
        push_min_be_bytes(&mut bytes, len);
        proof {
            lemma_min_be_bytes_u64(len);
            assert(bytes@ =~= min_be_bytes(len as nat));
        }
        out.push((128 + bytes.len()) as u8);
        append_bytes(out, bytes.as_slice());
        assert(out@ =~= old(out)@ + ber_length_field(len as nat));
    }
}

impl TlvRecord {
    /// Makes the BER record for `tag` and `value`; `None` for tag 0, which
    /// the framework refuses.
    pub fn ber(tag: u64, value: &[u8]) -> (r: Option<Self>)
        ensures
            opt_view(r) == spec_ber(tag, value@),
            r is Some <==> tag != 0,
    {
        if tag == 0 {
            return None;
        }
        let mut data: Vec<u8> = Vec::new();
        push_min_be_bytes(&mut data, tag);
        push_ber_length(&mut data, value.len() as u64);
        append_bytes(&mut data, value);
        let mut stored: Vec<u8> = Vec::new();
        append_bytes(&mut stored, value);
        assert(data@ =~= ber_data(tag, value@));
        assert(stored@ =~= value@);
        Some(TlvRecord { encoding: TlvEncoding::Ber, tag, value: stored, data })
    }

    /// Returns the bytes of a BER tag, the shortest big-endian spelling of
    /// `tag`; `None` for tag 0.
    pub fn ber_tag_data(tag: u64) -> (r: Option<Vec<u8>>)
        ensures
            r is Some <==> tag != 0,
            r matches Some(bytes) ==> bytes@ == min_be_bytes(tag as nat),
    {
        if tag == 0 {
            return None;
        }
        let mut bytes: Vec<u8> = Vec::new();
        push_min_be_bytes(&mut bytes, tag);
        assert(bytes@ =~= min_be_bytes(tag as nat));
        Some(bytes)
    }

    /// Makes the constructed BER record under `tag` whose value is the
    /// encodings of `records`, each made again from its encoding, tag and
    /// value; `None` when `tag` is 0 or a child cannot be made.
    pub fn ber_constructed(tag: u64, records: &[Self]) -> (r: Option<Self>)
        ensures
            opt_view(r) == spec_ber_constructed(tag, views(records@)),
    {
        let ghost children = views(records@);
        let mut value: Vec<u8> = Vec::new();
        let mut i: usize = 0;
        proof {
            assert(children.skip(0) =~= children);
            if let Some(d) = spec_children_data(children) {
                assert(value@ + d =~= d);
            }
        }
        while i < records.len()
            invariant
                i <= records@.len(),
                children == views(records@),
                spec_children_data(children) == prepend_bytes(
                    value@,
                    spec_children_data(children.skip(i as int)),
                ),
            decreases records.len() - i,
        {
            let child = &records[i];
            let rebuilt = match child.encoding {
                TlvEncoding::Ber => Self::ber(child.tag, child.value.as_slice()),
                TlvEncoding::Simple => if child.tag <= 255 {
                    Self::simple(child.tag as u8, child.value.as_slice())
                } else {
                    None
                },
                TlvEncoding::Compact => if child.tag <= 255 {
                    Self::compact(child.tag as u8, child.value.as_slice())
                } else {
                    None
                },
            };
            proof {
                assert(children.skip(i as int)[0] == child@);
                assert(children.skip(i as int).drop_first() =~= children.skip(i + 1));
                assert(opt_view(rebuilt) == spec_rebuild(child@));
            }
            match rebuilt {
                None => {
                    return None;
                },
                Some(record) => {
                    let ghost before = value@;
                    append_bytes(&mut value, record.data.as_slice());
                    proof {
                        let rest = spec_children_data(children.skip(i + 1));
                        match rest {
                            Some(tail) => {
                                assert(before + (record.data@ + tail) =~= value@ + tail);
                            },
                            None => {},
                        }
                    }
                },
            }
            i = i + 1;
        }
        proof {
            assert(children.skip(i as int).len() == 0);
            assert(value@ + Seq::<u8>::empty() =~= value@);
        }
        Self::ber(tag, value.as_slice())
    }

    /// Makes the SIMPLE record for `tag` and `value`; `None` for a value over
    /// 65535 bytes, which the framework refuses.
    pub fn simple(tag: u8, value: &[u8]) -> (r: Option<Self>)
        ensures
            opt_view(r) == spec_simple(tag, value@),
            r is Some <==> value@.len() <= 65535,
    {
        let len = value.len();
        if len > 65535 {
            return None;
        }
        let mut data: Vec<u8> = Vec::new();
        data.push(tag);
        if len < 255 {
            data.push(len as u8);
        } else {
            data.push(0xFF);
            data.push((len / 256) as u8);
            data.push((len % 256) as u8);
        }
        append_bytes(&mut data, value);
        let mut stored: Vec<u8> = Vec::new();
        append_bytes(&mut stored, value);
        assert(data@ =~= simple_data(tag, value@));
        assert(stored@ =~= value@);
        Some(TlvRecord { encoding: TlvEncoding::Simple, tag: tag as u64, value: stored, data })
    }

    /// Makes the COMPACT record for `tag` and `value`; `None` for a tag above
    /// 15 or a value over 15 bytes, which the framework refuses.
    pub fn compact(tag: u8, value: &[u8]) -> (r: Option<Self>)
        ensures
            opt_view(r) == spec_compact(tag, value@),
            r is Some <==> tag <= 15 && value@.len() <= 15,
    {
        let len = value.len();
        if tag > 15 || len > 15 {
            return None;
        }
        let mut data: Vec<u8> = Vec::new();
        data.push(tag * 16 + len as u8);
        append_bytes(&mut data, value);
        let mut stored: Vec<u8> = Vec::new();
        append_bytes(&mut stored, value);
        assert(data@ =~= compact_data(tag, value@));
        assert(stored@ =~= value@);
        Some(TlvRecord { encoding: TlvEncoding::Compact, tag: tag as u64, value: stored, data })
    }
}


/// One interface group of an answer-to-reset: its index and the interface
/// bytes TA, TB and TC with the protocol that TD names, where present.
#[derive(Debug, Clone, PartialEq, Eq)]
pub struct SmartCardAtrInterfaceGroup {
    pub index: i64,
    pub ta: Option<u8>,
    pub tb: Option<u8>,
    pub tc: Option<u8>,
    pub protocol: Option<SmartCardProtocol>,
}

/// A parsed answer-to-reset (`TKSmartCardATR`): its bytes, the protocols it
/// offers, its interface groups, its historical bytes, and the COMPACT
/// records they hold when they hold any.
#[derive(Debug, Clone, PartialEq, Eq)]
pub struct SmartCardAtr {
    pub bytes: Vec<u8>,
    pub protocols: Vec<SmartCardProtocol>,
    pub interface_groups: Vec<SmartCardAtrInterfaceGroup>,
    pub historical_bytes: Vec<u8>,
    pub historical_records: Option<Vec<TlvRecord>>,
}

/// The view of a parsed record together with the number of bytes it used.
pub open spec fn opt_prefix_view(r: Option<(TlvRecord, usize)>) -> Option<(TlvRecordView, int)> {
    match r {
        Some((rec, n)) => Some((rec@, n as int)),
        None => None,
    }
}

/// The COMPACT record at the start of `data`: a header byte with the tag in
/// its high and the value length in its low nibble, then the value.
pub open spec fn spec_compact_prefix(data: Seq<u8>) -> Option<(TlvRecordView, int)> {
    if data.len() == 0 {
        None
    } else {
        let total = 1 + (data[0] % 16) as int;
        if data.len() < total {
            None
        } else {
            match spec_compact(data[0] / 16, data.subrange(1, total)) {
                Some(r) => Some((r, total)),
                None => None,
            }
        }
    }
}

/// The SIMPLE record at the start of `data`: a tag other than `0x00` and
/// `0xFF`, a length byte (or `0xFF` and two big-endian length bytes), then
/// the value.
pub open spec fn spec_simple_prefix(data: Seq<u8>) -> Option<(TlvRecordView, int)> {
    if data.len() < 2 || data[0] == 0 || data[0] == 0xFF {
        None
    } else if data[1] == 0xFF && data.len() < 4 {
        None
    } else {
        let header_len: int = if data[1] == 0xFF {
            4
        } else {
            2
        };
        let value_len: int = if data[1] == 0xFF {
            data[2] as int * 256 + data[3] as int
        } else {
            data[1] as int
        };
        let total = header_len + value_len;
        if data.len() < total {
            None
        } else {
            match spec_simple(data[0], data.subrange(header_len, total)) {
                Some(r) => Some((r, total)),
                None => None,
            }
        }
    }
}

/// The length of a multi-byte BER tag whose subsequent bytes are scanned
/// from index `k`: the tag ends at the first byte without the high bit, and
/// may be at most 8 bytes long.
pub open spec fn ber_tag_scan(data: Seq<u8>, k: nat) -> Option<nat>
    decreases 8 - k,
{
    if k >= 8 || k >= data.len() {
        None
    } else if data[k as int] < 128 {
        Some(k + 1)
    } else {
        ber_tag_scan(data, k + 1)
    }
}

/// The length of the BER tag at the start of `data`: one byte, unless its
/// low five bits are all set.
pub open spec fn ber_tag_len(data: Seq<u8>) -> Option<nat> {
    if data.len() == 0 {
        None
    } else if data[0] % 32 != 31 {
        Some(1)
    } else {
        ber_tag_scan(data, 1)
    }
}

/// The BER record whose tag of `tag_len` bytes and length field of
/// `length_len` bytes announce `value_len` value bytes.
pub open spec fn ber_record_at(data: Seq<u8>, tag_len: nat, length_len: nat, value_len: nat) -> Option<
    (TlvRecordView, int),
> {
    let total = tag_len + length_len + value_len;
    if data.len() < total {
        None
    } else {
        match spec_ber(
            be_value(data.subrange(0, tag_len as int)) as u64,
            data.subrange((tag_len + length_len) as int, total as int),
        ) {
            Some(r) => Some((r, total as int)),
            None => None,
        }
    }
}

/// The BER record at the start of `data`: the tag, the length field (short
/// form below 128, else `0x80` plus 1 to 8 big-endian length bytes), then the
/// value.
pub open spec fn spec_ber_prefix(data: Seq<u8>) -> Option<(TlvRecordView, int)> {
    match ber_tag_len(data) {
        None => None,
        Some(tag_len) => if data.len() <= tag_len {
            None
        } else {
            let length_byte = data[tag_len as int];
            if length_byte < 128 {
                ber_record_at(data, tag_len, 1, length_byte as nat)
            } else {
                let count = (length_byte - 128) as nat;
                if count == 0 || count > 8 || data.len() < tag_len + 1 + count {
                    None
                } else {
                    ber_record_at(
                        data,
                        tag_len,
                        1 + count,
                        be_value(data.subrange(tag_len + 1 as int, tag_len + 1 + count as int)),
                    )
                }
            }
        },
    }
}

/// The record of the given encoding at the start of `data`.
pub open spec fn spec_prefix(encoding: TlvEncoding, data: Seq<u8>) -> Option<(TlvRecordView, int)> {
    match encoding {
        TlvEncoding::Ber => spec_ber_prefix(data),
        TlvEncoding::Simple => spec_simple_prefix(data),
        TlvEncoding::Compact => spec_compact_prefix(data),
    }
}

/// The first of a BER, a SIMPLE and a COMPACT record that starts `data`.
pub open spec fn spec_any_prefix(data: Seq<u8>) -> Option<(TlvRecordView, int)> {
    if spec_ber_prefix(data) is Some {
        spec_ber_prefix(data)
    } else if spec_simple_prefix(data) is Some {
        spec_simple_prefix(data)
    } else {
        spec_compact_prefix(data)
    }
}

/// The record of the given encoding that is exactly `data`.
pub open spec fn spec_parse_with_encoding(encoding: TlvEncoding, data: Seq<u8>) -> Option<
    TlvRecordView,
> {
    match spec_prefix(encoding, data) {
        Some((r, n)) => if n == data.len() {
            Some(r)
        } else {
            None
        },
        None => None,
    }
}

/// The first of a BER, a SIMPLE and a COMPACT record that is exactly `data`.
pub open spec fn spec_parse(data: Seq<u8>) -> Option<TlvRecordView> {
    if spec_parse_with_encoding(TlvEncoding::Ber, data) is Some {
        spec_parse_with_encoding(TlvEncoding::Ber, data)
    } else if spec_parse_with_encoding(TlvEncoding::Simple, data) is Some {
        spec_parse_with_encoding(TlvEncoding::Simple, data)
    } else {
        spec_parse_with_encoding(TlvEncoding::Compact, data)
    }
}

/// One step of a sequence parse: the record of `encoding`, or of the first
/// encoding that fits when `encoding` is `None`.
pub open spec fn spec_step(encoding: Option<TlvEncoding>, data: Seq<u8>) -> Option<(TlvRecordView, int)> {
    match encoding {
        Some(e) => spec_prefix(e, data),
        None => spec_any_prefix(data),
    }
}

/// `prefix` followed by the records in `rest`, if there are any.
pub open spec fn prepend_records(prefix: Seq<TlvRecordView>, rest: Option<Seq<TlvRecordView>>) -> Option<
    Seq<TlvRecordView>,
> {
    match rest {
        Some(r) => Some(prefix + r),
        None => None,
    }
}

/// The records that, one after the other, make up all of `data`.
pub open spec fn spec_records(encoding: Option<TlvEncoding>, data: Seq<u8>) -> Option<Seq<TlvRecordView>>
    decreases data.len(),
{
    if data.len() == 0 {
        Some(Seq::empty())
    } else {
        match spec_step(encoding, data) {
            Some((r, n)) => if 0 < n <= data.len() {
                prepend_records(seq![r], spec_records(encoding, data.subrange(n, data.len() as int)))
            } else {
                None
            },
            None => None,
        }
    }
}

/// The views of an optional sequence of records.
pub open spec fn opt_views(r: Option<Vec<TlvRecord>>) -> Option<Seq<TlvRecordView>> {
    match r {
        Some(v) => Some(views(v@)),
        None => None,
    }
}

/// Whether `r` is what the constructor of its encoding makes from its tag
/// and value.
pub open spec fn is_well_formed(r: TlvRecordView) -> bool {
    spec_rebuild(r) == Some(r)
}

/// What holds of every record found at the start of `data`: it has the
/// encoding asked for, is well formed, uses between 1 and all of the bytes,
/// and its value is the last bytes it uses.
pub open spec fn prefix_facts(encoding: TlvEncoding, data: Seq<u8>, p: (TlvRecordView, int)) -> bool {
    let (r, n) = p;
    &&& r.encoding == encoding
    &&& is_well_formed(r)
    &&& 0 < n <= data.len()
    &&& r.value.len() < n
    &&& r.value == data.subrange(n - r.value.len(), n)
}

pub proof fn lemma_prefix_facts(encoding: TlvEncoding, data: Seq<u8>)
    ensures
        spec_prefix(encoding, data) matches Some(p) ==> prefix_facts(encoding, data, p),
{
    match encoding {
        TlvEncoding::Ber => {
            if let Some(tag_len) = ber_tag_len(data) {
                if tag_len == 1 {
                } else {
                    lemma_ber_tag_scan_bounds(data, 1);
                }
            }
        },
        TlvEncoding::Simple => {},
        TlvEncoding::Compact => {},
    }
}

proof fn lemma_ber_tag_scan_bounds(data: Seq<u8>, k: nat)
    ensures
        ber_tag_scan(data, k) matches Some(t) ==> k + 1 <= t <= 8 && t <= data.len(),
    decreases 8 - k,
{
    if k < 8 && k < data.len() && data[k as int] >= 128 {
        lemma_ber_tag_scan_bounds(data, k + 1);
    }
}

pub proof fn lemma_step_facts(encoding: Option<TlvEncoding>, data: Seq<u8>)
    ensures
        spec_step(encoding, data) matches Some((r, n)) ==> 0 < n <= data.len() && is_well_formed(r)
            && r.value.len() < n,
        encoding matches Some(e) ==> (spec_step(encoding, data) matches Some((r, n)) ==> r.encoding
            == e),
{
    lemma_prefix_facts(TlvEncoding::Ber, data);
    lemma_prefix_facts(TlvEncoding::Simple, data);
    lemma_prefix_facts(TlvEncoding::Compact, data);
}

fn be_value_u64(data: &[u8], start: usize, end: usize) -> (v: u64)
    requires
        start <= end <= data@.len(),
        end - start <= 8,
    ensures
        v == be_value(data@.subrange(start as int, end as int)),
{
    let mut v: u64 = 0;
    let mut i: usize = start;
    assert(data@.subrange(start as int, start as int) =~= Seq::<u8>::empty());
    while i < end
        invariant
            start <= i <= end,
            end <= data@.len(),
            end - start <= 8,
            v == be_value(data@.subrange(start as int, i as int)),
        decreases end - i,
    {
        proof {
            lemma_be_value_step(data@, start as int, i as int);
            lemma_be_value_bound(data@.subrange(start as int, i as int));
            lemma_pow256_mono((i - start + 1) as nat, 8);
            lemma_pow256_8();
            assert(pow256((i - start + 1) as nat) == 256 * pow256((i - start) as nat));
        }
        v = v * 256 + data[i] as u64;
        i = i + 1;
    }
    v
}

impl TlvRecord {
    /// Parses `data` as exactly one record: BER first, then SIMPLE, then
    /// COMPACT.
    pub fn parse(data: &[u8]) -> (r: Option<Self>)
        ensures
            opt_view(r) == spec_parse(data@),
    {
        match Self::parse_with_encoding(TlvEncoding::Ber, data) {
            Some(r) => Some(r),
            None => match Self::parse_with_encoding(TlvEncoding::Simple, data) {
                Some(r) => Some(r),
                None => Self::parse_with_encoding(TlvEncoding::Compact, data),
            },
        }
    }

    /// Parses `data` as exactly one record of the given encoding; `None`
    /// unless one record uses every byte.
    pub fn parse_with_encoding(encoding: TlvEncoding, data: &[u8]) -> (r: Option<Self>)
        ensures
            opt_view(r) == spec_parse_with_encoding(encoding, data@),
            r matches Some(rec) ==> rec.encoding == encoding && is_well_formed(rec@)
                && rec@.value.len() < data@.len(),
    {
        proof {
            lemma_prefix_facts(encoding, data@);
        }
        match parse_tlv_record_prefix(encoding, data) {
            Some((record, consumed)) => if consumed == data.len() {
                Some(record)
            } else {
                None
            },
            None => None,
        }
    }

    /// Parses `data` as a sequence of records, each BER, SIMPLE or COMPACT,
    /// whichever fits first; `None` unless the records use every byte.
    pub fn parse_sequence(data: &[u8]) -> (r: Option<Vec<Self>>)
        ensures
            opt_views(r) == spec_records(None, data@),
    {
        parse_tlv_sequence_with_fallback(data)
    }

    /// Parses `data` as a sequence of records of the given encoding; `None`
    /// unless the records use every byte.
    pub fn parse_sequence_with_encoding(encoding: TlvEncoding, data: &[u8]) -> (r: Option<Vec<Self>>)
        ensures
            opt_views(r) == spec_records(Some(encoding), data@),
    {
        parse_records(Some(encoding), data)
    }
}

fn parse_tlv_sequence_with_fallback(data: &[u8]) -> (r: Option<Vec<TlvRecord>>)
    ensures
        opt_views(r) == spec_records(None, data@),
{
    parse_records(None, data)
}

fn parse_step(encoding: Option<TlvEncoding>, data: &[u8]) -> (r: Option<(TlvRecord, usize)>)
    ensures
        opt_prefix_view(r) == spec_step(encoding, data@),
{
    match encoding {
        Some(e) => parse_tlv_record_prefix(e, data),
        None => match parse_tlv_record_prefix(TlvEncoding::Ber, data) {
            Some(p) => Some(p),
            None => match parse_tlv_record_prefix(TlvEncoding::Simple, data) {
                Some(p) => Some(p),
                None => parse_tlv_record_prefix(TlvEncoding::Compact, data),
            },
        },
    }
}

fn parse_records(encoding: Option<TlvEncoding>, data: &[u8]) -> (r: Option<Vec<TlvRecord>>)
    ensures
        opt_views(r) == spec_records(encoding, data@),
{
    let mut records: Vec<TlvRecord> = Vec::new();
    let mut pos: usize = 0;
    assert(data@.subrange(0, data@.len() as int) =~= data@);
    assert(views(records@) + Seq::<TlvRecordView>::empty() =~= views(records@));
    proof {
        if let Some(all) = spec_records(encoding, data@) {
            assert(views(records@) + all =~= all);
        }
    }
    while pos < data.len()
        invariant
            pos <= data@.len(),
            spec_records(encoding, data@) == prepend_records(
                views(records@),
                spec_records(encoding, data@.subrange(pos as int, data@.len() as int)),
            ),
        decreases data.len() - pos,
    {
        let rest = slice_subrange(data, pos, data.len());
        proof {
            lemma_step_facts(encoding, rest@);
        }
        match parse_step(encoding, rest) {
            None => {
                return None;
            },
            Some((record, consumed)) => {
                proof {
                    assert(rest@.subrange(consumed as int, rest@.len() as int) =~= data@.subrange(
                        pos + consumed,
                        data@.len() as int,
                    ));
                    let tail = spec_records(
                        encoding,
                        data@.subrange(pos + consumed, data@.len() as int),
                    );
                    if let Some(t) = tail {
                        assert(views(records@.push(record)) =~= views(records@).push(record@));
                        assert(views(records@) + (seq![record@] + t) =~= views(records@).push(
                            record@,
                        ) + t);
                    }
                }
                records.push(record);
                pos = pos + consumed;
            },
        }
    }
    proof {
        assert(data@.subrange(pos as int, data@.len() as int).len() == 0);
        assert(views(records@) + Seq::<TlvRecordView>::empty() =~= views(records@));
    }
    Some(records)
}

fn parse_tlv_record_prefix(encoding: TlvEncoding, data: &[u8]) -> (r: Option<(TlvRecord, usize)>)
    ensures
        opt_prefix_view(r) == spec_prefix(encoding, data@),
{
    match encoding {
        TlvEncoding::Ber => parse_ber_record_prefix(data),
        TlvEncoding::Simple => parse_simple_record_prefix(data),
        TlvEncoding::Compact => parse_compact_record_prefix(data),
    }
}

fn parse_compact_record_prefix(data: &[u8]) -> (r: Option<(TlvRecord, usize)>)
    ensures
        opt_prefix_view(r) == spec_compact_prefix(data@),
{
    if data.len() == 0 {
        return None;
    }
    let header = data[0];
    assert((header & 0x0F) == header % 16) by (bit_vector);
    assert((header >> 4u8) == header / 16) by (bit_vector);
    let len = (header & 0x0F) as usize;
    let total = 1 + len;
    if data.len() < total {
        return None;
    }
    let tag = header >> 4u8;
    let value = slice_subrange(data, 1, total);
    match TlvRecord::compact(tag, value) {
        Some(record) => Some((record, total)),
        None => None,
    }
}

fn parse_simple_record_prefix(data: &[u8]) -> (r: Option<(TlvRecord, usize)>)
    ensures
        opt_prefix_view(r) == spec_simple_prefix(data@),
{
    if data.len() == 0 {
        return None;
    }
    let tag = data[0];
    if tag == 0 || tag == 0xFF {
        return None;
    }
    if data.len() < 2 {
        return None;
    }
    let length_marker = data[1];
    let header_len: usize;
    let value_len: usize;
    if length_marker == 0xFF {
        if data.len() < 4 {
            return None;
        }
        header_len = 4;
        value_len = data[2] as usize * 256 + data[3] as usize;
    } else {
        header_len = 2;
        value_len = length_marker as usize;
    }
    let total = header_len + value_len;
    if data.len() < total {
        return None;
    }
    let value = slice_subrange(data, header_len, total);
    match TlvRecord::simple(tag, value) {
        Some(record) => Some((record, total)),
        None => None,
    }
}

fn parse_ber_record_prefix(data: &[u8]) -> (r: Option<(TlvRecord, usize)>)
    ensures
        opt_prefix_view(r) == spec_ber_prefix(data@),
{
    if data.len() == 0 {
        return None;
    }
    let first = data[0];
    assert((first & 0x1F) == first % 32) by (bit_vector);
    let mut tag_len: usize = 1;
    if first & 0x1F == 0x1F {
        let mut k: usize = 1;
        loop
            invariant_except_break
                1 <= k <= 8,
                ber_tag_scan(data@, 1) == ber_tag_scan(data@, k as nat),
            invariant
                data@.len() > 0,
                data@[0] % 32 == 31,
            ensures
                ber_tag_len(data@) == Some(tag_len as nat),
                1 <= tag_len <= 8,
                tag_len <= data@.len(),
            decreases 8 - k,
        {
            if k >= 8 || k >= data.len() {
                return None;
            }
            let byte = data[k];
            assert((byte & 0x80) == 0 <==> byte < 128) by (bit_vector);
            if byte & 0x80 == 0 {
                tag_len = k + 1;
                break ;
            }
            k = k + 1;
        }
    }
    let tag = be_value_u64(data, 0, tag_len);
    if tag_len >= data.len() {
        return None;
    }
    let length_byte = data[tag_len];
    assert((length_byte & 0x80) == 0 <==> length_byte < 128) by (bit_vector);
    assert(length_byte >= 128 ==> (length_byte & 0x7F) == length_byte - 128) by (bit_vector);
    let length_len: usize;
    let value_len: u64;
    if length_byte & 0x80 == 0 {
        length_len = 1;
        value_len = length_byte as u64;
    } else {
        let count = (length_byte & 0x7F) as usize;
        if count == 0 || count > 8 {
            return None;
        }
        if data.len() - (tag_len + 1) < count {
            return None;
        }
        value_len = be_value_u64(data, tag_len + 1, tag_len + 1 + count);
        length_len = 1 + count;
    }
    let header = tag_len + length_len;
    if value_len > (data.len() - header) as u64 {
        return None;
    }
    let total = header + value_len as usize;
    let value = slice_subrange(data, header, total);
    match TlvRecord::ber(tag, value) {
        Some(record) => Some((record, total)),
        None => None,
    }
}

} // verus!
