//! The icon files of the app. The pictures themselves are drawn in floating
//! point by the forge in the application; what is decided here is which tuning
//! a size is drawn with, how the sizes are packed into one Windows `.ico` of
//! PNG payloads, and how such a file is read back to check it.

use vstd::prelude::*;

verus! {

// ---------------------------------------------------------------- the tiers

/// How the drawing is tuned for an output size: the small sizes widen the
/// bars and tighten the gaps, so that no bar falls below a pixel and a half.
#[derive(Debug, Clone, Copy, PartialEq, Eq, Structural)]
pub enum Tier {
    Small,
    Medium,
    Large,
}

/// The tier a side length is drawn with.
pub open spec fn tier_of(n: u32) -> Tier {
    if n <= 28 {
        Tier::Small
    } else if n <= 55 {
        Tier::Medium
    } else {
        Tier::Large
    }
}

/// The tier a side length is drawn with: up to 28 pixels small, up to 55
/// medium, and the title bar's own proportions above that.
pub fn tier_for(n: u32) -> (t: Tier)
    ensures
        t == tier_of(n),
{
    if n <= 28 {
        Tier::Small
    } else if n <= 55 {
        Tier::Medium
    } else {
        Tier::Large
    }
}

// ---------------------------------------------------------------- the file as bytes

/// An entry of the file as the specifications see it: side length and PNG bytes.
pub type EntryView = (u32, Seq<u8>);

/// The entries to write, as the specifications see them.
pub open spec fn entry_views(e: Seq<(u32, Vec<u8>)>) -> Seq<EntryView> {
    e.map_values(|x: (u32, Vec<u8>)| (x.0, x.1@))
}

/// A number as two bytes, low byte first (what is above them is cut off).
pub open spec fn le16(v: nat) -> Seq<u8> {
    seq![(v % 256) as u8, ((v / 256) % 256) as u8]
}

/// A number as four bytes, low byte first (what is above them is cut off).
pub open spec fn le32(v: nat) -> Seq<u8> {
    seq![
        (v % 256) as u8,
        ((v / 256) % 256) as u8,
        ((v / 65536) % 256) as u8,
        ((v / 16777216) % 256) as u8,
    ]
}

/// The width (and height) byte of an entry: the format writes 256 as zero.
pub open spec fn dim_byte(n: u32) -> u8 {
    if n == 256 {
        0
    } else {
        (n % 256) as u8
    }
}

/// The directory record of one entry: width, height, no palette, reserved,
/// one plane, 32 bits per pixel, the payload's length and where it starts.
pub open spec fn record(n: u32, len: nat, offset: nat) -> Seq<u8> {
    seq![dim_byte(n), dim_byte(n), 0u8, 0u8] + le16(1) + le16(32) + le32(len) + le32(offset)
}

/// How many payload bytes the entries carry.
pub open spec fn total_len(e: Seq<EntryView>) -> nat
    decreases e.len(),
{
    if e.len() == 0 {
        0
    } else {
        total_len(e.drop_last()) + e.last().1.len()
    }
}

/// The directory records, the payloads starting at `base`.
pub open spec fn records(e: Seq<EntryView>, base: nat) -> Seq<u8>
    decreases e.len(),
{
    if e.len() == 0 {
        seq![]
    } else {
        records(e.drop_last(), base) + record(
            e.last().0,
            e.last().1.len(),
            base + total_len(e.drop_last()),
        )
    }
}

/// The payloads, one after the other.
pub open spec fn payloads(e: Seq<EntryView>) -> Seq<u8>
    decreases e.len(),
{
    if e.len() == 0 {
        seq![]
    } else {
        payloads(e.drop_last()) + e.last().1
    }
}

/// Reserved, type 1 (an icon), and the number of entries.
pub open spec fn ico_header(count: nat) -> Seq<u8> {
    seq![0u8, 0u8, 1u8, 0u8] + le16(count)
}

/// Where the payloads of `count` entries start: after the header and the
/// directory.
pub open spec fn payload_base(count: nat) -> nat {
    6 + 16 * count
}

/// The whole file.
pub open spec fn ico_bytes(e: Seq<EntryView>) -> Seq<u8> {
    ico_header(e.len()) + records(e, payload_base(e.len())) + payloads(e)
}

fn push_le16(out: &mut Vec<u8>, v: usize)
    ensures
        final(out)@ == old(out)@ + le16(v as nat),
{
    out.push((v % 256) as u8);
    out.push(((v / 256) % 256) as u8);
    assert(final(out)@ =~= old(out)@ + le16(v as nat));
}

fn push_le32(out: &mut Vec<u8>, v: usize)
    ensures
        final(out)@ == old(out)@ + le32(v as nat),
{
    out.push((v % 256) as u8);
    out.push(((v / 256) % 256) as u8);
    out.push(((v / 65536) % 256) as u8);
    out.push(((v / 16777216) % 256) as u8);
    assert(final(out)@ =~= old(out)@ + le32(v as nat));
}

proof fn lemma_total_len_take(e: Seq<EntryView>, i: int)
    requires
        0 <= i <= e.len(),
    ensures
        total_len(e.take(i)) <= total_len(e),
    decreases e.len() - i,
{
    if i < e.len() {
        lemma_total_len_take(e, i + 1);
        assert(e.take(i + 1).drop_last() =~= e.take(i));
    } else {
        assert(e.take(i) =~= e);
    }
}

/// Builds an `.ico` out of PNG payloads, 32-bit, as Windows expects.
pub fn write_ico(entries: &Vec<(u32, Vec<u8>)>) -> (r: Vec<u8>)
    requires
        payload_base(entries@.len() as nat) + total_len(entry_views(entries@)) <= usize::MAX,
    ensures
        r@ == ico_bytes(entry_views(entries@)),
{
    let ghost e = entry_views(entries@);
    let mut out: Vec<u8> = Vec::new();
    out.push(0);
    out.push(0);
    out.push(1);
    out.push(0);
    push_le16(&mut out, entries.len());
    proof {
        assert(out@ =~= ico_header(e.len()));
        lemma_total_len_take(e, 0);
    }
    let base: usize = 6 + entries.len() * 16;
    let mut offset: usize = base;
    let mut i: usize = 0;
    while i < entries.len()
        invariant
            e == entry_views(entries@),
            i <= entries@.len(),
            base == payload_base(e.len()),
            base + total_len(e) <= usize::MAX,
            out@ == ico_header(e.len()) + records(e.take(i as int), base as nat),
            offset == base + total_len(e.take(i as int)),
        decreases entries@.len() - i,
    {
        proof {
            assert(e.take(i + 1).drop_last() =~= e.take(i as int));
            lemma_total_len_take(e, i + 1);
        }
        let n = entries[i].0;
        let len = entries[i].1.len();
        let dim: u8 = if n == 256 {
            0
        } else {
            (n % 256) as u8
        };
        let ghost before = out@;
        out.push(dim);
        out.push(dim);
        out.push(0);
        out.push(0);
        push_le16(&mut out, 1);
        push_le16(&mut out, 32);
        push_le32(&mut out, len);
        push_le32(&mut out, offset);
        proof {
            assert(e[i as int] == (n, entries@[i as int].1@));
            assert(out@ =~= before + record(n, len as nat, offset as nat));
            assert(records(e.take(i + 1), base as nat) =~= records(e.take(i as int), base as nat)
                + record(n, len as nat, offset as nat));
        }
        offset = offset + len;
        i = i + 1;
    }
    proof {
        assert(e.take(entries@.len() as int) =~= e);
    }
    let ghost head = out@;
    let mut i: usize = 0;
    while i < entries.len()
        invariant
            e == entry_views(entries@),
            i <= entries@.len(),
            head == ico_header(e.len()) + records(e, payload_base(e.len())),
            out@ == head + payloads(e.take(i as int)),
        decreases entries@.len() - i,
    {
        proof {
            assert(e.take(i + 1).drop_last() =~= e.take(i as int));
        }
        let png = &entries[i].1;
        let ghost mid = out@;
        let mut k: usize = 0;
        while k < png.len()
            invariant
                k <= png@.len(),
                out@ == mid + png@.take(k as int),
            decreases png@.len() - k,
        {
            out.push(png[k]);
            proof {
                assert(png@.take(k + 1) =~= png@.take(k as int).push(png@[k as int]));
            }
            k = k + 1;
        }
        proof {
            assert(png@.take(png@.len() as int) =~= png@);
            assert(e[i as int].1 == png@);
            assert(payloads(e.take(i + 1)) =~= payloads(e.take(i as int)) + png@);
        }
        i = i + 1;
    }
    proof {
        assert(e.take(entries@.len() as int) =~= e);
    }
    out
}

// ---------------------------------------------------------------- reading a file back

/// One entry of a file's directory: the side it declares, and where its
/// payload lies.
#[derive(Debug, Clone, Copy, PartialEq, Eq, Structural)]
pub struct IcoEntry {
    pub declared: u32,
    pub len: u32,
    pub offset: u32,
}

/// Why a file's directory cannot be read.
#[derive(Debug, Clone, Copy, PartialEq, Eq, Structural)]
pub enum IcoFault {
    /// The header or a directory record is cut short.
    Truncated,
    /// The payload of this entry runs past the end of the file.
    PastEnd(usize),
}

/// Two bytes at `i`, low byte first.
pub open spec fn read16(b: Seq<u8>, i: int) -> nat {
    b[i] as nat + 256 * (b[i + 1] as nat)
}

/// Four bytes at `i`, low byte first.
pub open spec fn read32(b: Seq<u8>, i: int) -> nat {
    b[i] as nat + 256 * (b[i + 1] as nat) + 65536 * (b[i + 2] as nat) + 16777216 * (
    b[i + 3] as nat)
}

/// The side a width byte declares: zero stands for 256.
pub open spec fn declared_of(x: u8) -> nat {
    if x == 0 {
        256
    } else {
        x as nat
    }
}

/// Entry `i` of the directory: declared side, payload length, payload offset.
pub open spec fn entry_of(b: Seq<u8>, i: int) -> (nat, nat, nat) {
    let at = 6 + 16 * i;
    (declared_of(b[at]), read32(b, at + 8), read32(b, at + 12))
}

/// The first fault among the entries from `k` on, in the order they are read.
pub open spec fn fault_from(b: Seq<u8>, count: nat, k: nat) -> Option<IcoFault>
    decreases count - k,
{
    if k >= count {
        None
    } else if 6 + 16 * k + 16 > b.len() {
        Some(IcoFault::Truncated)
    } else if entry_of(b, k as int).2 + entry_of(b, k as int).1 > b.len() {
        Some(IcoFault::PastEnd(k as usize))
    } else {
        fault_from(b, count, k + 1)
    }
}

/// The directory of a file, or the first fault met reading it.
pub open spec fn directory_of(b: Seq<u8>) -> Result<Seq<(nat, nat, nat)>, IcoFault> {
    if b.len() < 6 {
        Err(IcoFault::Truncated)
    } else {
        match fault_from(b, read16(b, 4), 0) {
            Some(f) => Err(f),
            None => Ok(Seq::new(read16(b, 4), |i: int| entry_of(b, i))),
        }
    }
}

/// Entries as the specifications see them.
pub open spec fn ico_entry_views(v: Seq<IcoEntry>) -> Seq<(nat, nat, nat)> {
    v.map_values(|x: IcoEntry| (x.declared as nat, x.len as nat, x.offset as nat))
}

fn read32_at(b: &Vec<u8>, i: usize) -> (r: u32)
    requires
        i + 4 <= b.len(),
    ensures
        r as nat == read32(b@, i as int),
{
    let b0: u32 = b[i] as u32;
    let b1: u32 = b[i + 1] as u32;
    let b2: u32 = b[i + 2] as u32;
    let b3: u32 = b[i + 3] as u32;
    assert(b0 < 256 && b1 < 256 && b2 < 256 && b3 < 256);
    b0 + 256 * b1 + 65536 * b2 + 16777216 * b3
}

/// Reads the directory of an `.ico` back, checking that each entry's payload
/// lies inside the file. Decoding the payloads is for the application.
pub fn ico_directory(ico: &Vec<u8>) -> (r: Result<Vec<IcoEntry>, IcoFault>)
    ensures
        match r {
            Ok(v) => directory_of(ico@) == Ok::<Seq<(nat, nat, nat)>, IcoFault>(
                ico_entry_views(v@),
            ),
            Err(f) => directory_of(ico@) == Err::<Seq<(nat, nat, nat)>, IcoFault>(f),
        },
{
    if ico.len() < 6 {
        return Err(IcoFault::Truncated);
    }
    let count: usize = (ico[4] as usize) + 256 * (ico[5] as usize);
    let ghost c = read16(ico@, 4);
    assert(count == c);
    let mut out: Vec<IcoEntry> = Vec::new();
    let mut i: usize = 0;
    while i < count
        invariant
            ico@.len() >= 6,
            count == c,
            c == read16(ico@, 4),
            c < 65536,
            i <= count,
            fault_from(ico@, c, 0) == fault_from(ico@, c, i as nat),
            ico_entry_views(out@) == Seq::new(i as nat, |j: int| entry_of(ico@, j)),
        decreases count - i,
    {
        let e = 6 + 16 * i;
        if e + 16 > ico.len() {
            return Err(IcoFault::Truncated);
        }
        let declared: u32 = if ico[e] == 0 {
            256
        } else {
            ico[e] as u32
        };
        let len = read32_at(ico, e + 8);
        let off = read32_at(ico, e + 12);
        if (off as u64) + (len as u64) > ico.len() as u64 {
            return Err(IcoFault::PastEnd(i));
        }
        let ghost before = out@;
        out.push(IcoEntry { declared, len, offset: off });
        proof {
            assert(declared as nat == declared_of(ico@[e as int]));
            assert(entry_of(ico@, i as int) == (declared as nat, len as nat, off as nat));
            assert(ico_entry_views(out@) =~= ico_entry_views(before).push(
                (declared as nat, len as nat, off as nat),
            ));
            assert(ico_entry_views(out@) =~= Seq::new((i + 1) as nat, |j: int| entry_of(ico@, j)));
        }
        i = i + 1;
    }
    Ok(out)
}

// ---------------------------------------------------------------- the round trip

proof fn lemma_le16(v: nat)
    requires
        v < 65536,
    ensures
        read16(le16(v), 0) == v,
{
    vstd::arithmetic::div_mod::lemma_fundamental_div_mod(v as int, 256);
    assert(v / 256 < 256) by (nonlinear_arith)
        requires
            v < 65536,
    ;
}

proof fn lemma_le32(v: nat)
    requires
        v < 0x1_0000_0000,
    ensures
        read32(le32(v), 0) == v,
{
    let b0 = v % 256;
    let q1 = v / 256;
    let b1 = q1 % 256;
    let q2 = q1 / 256;
    let b2 = q2 % 256;
    let q3 = q2 / 256;
    vstd::arithmetic::div_mod::lemma_fundamental_div_mod(v as int, 256);
    vstd::arithmetic::div_mod::lemma_fundamental_div_mod(q1 as int, 256);
    vstd::arithmetic::div_mod::lemma_fundamental_div_mod(q2 as int, 256);
    assert(q3 < 256) by (nonlinear_arith)
        requires
            v < 0x1_0000_0000,
            v == 256 * q1 + b0,
            q1 == 256 * q2 + b1,
            q2 == 256 * q3 + b2,
            b0 < 256,
            b1 < 256,
            b2 < 256,
    ;
    assert(v / 65536 == q2) by (nonlinear_arith)
        requires
            q1 == v / 256,
            q2 == q1 / 256,
    ;
    assert(v / 16777216 == q3) by (nonlinear_arith)
        requires
            q1 == v / 256,
            q2 == q1 / 256,
            q3 == q2 / 256,
    ;
}

proof fn lemma_records_len(e: Seq<EntryView>, base: nat)
    ensures
        records(e, base).len() == 16 * e.len(),
    decreases e.len(),
{
    if e.len() > 0 {
        lemma_records_len(e.drop_last(), base);
    }
}

proof fn lemma_payloads_len(e: Seq<EntryView>)
    ensures
        payloads(e).len() == total_len(e),
    decreases e.len(),
{
    if e.len() > 0 {
        lemma_payloads_len(e.drop_last());
    }
}

proof fn lemma_record_at(e: Seq<EntryView>, base: nat, i: int)
    requires
        0 <= i < e.len(),
    ensures
        records(e, base).subrange(16 * i, 16 * i + 16) == record(
            e[i].0,
            e[i].1.len(),
            base + total_len(e.take(i)),
        ),
    decreases e.len(),
{
    let d = e.drop_last();
    lemma_records_len(d, base);
    if i == e.len() - 1 {
        assert(e.take(i) =~= d);
        assert(records(e, base).subrange(16 * i, 16 * i + 16) =~= record(
            e[i].0,
            e[i].1.len(),
            base + total_len(e.take(i)),
        ));
    } else {
        lemma_record_at(d, base, i);
        assert(d.take(i) =~= e.take(i));
        assert(records(e, base).subrange(16 * i, 16 * i + 16) =~= records(d, base).subrange(
            16 * i,
            16 * i + 16,
        ));
    }
}

proof fn lemma_payload_at(e: Seq<EntryView>, i: int)
    requires
        0 <= i < e.len(),
    ensures
        total_len(e.take(i)) + e[i].1.len() == total_len(e.take(i + 1)),
        payloads(e).subrange(total_len(e.take(i)) as int, total_len(e.take(i + 1)) as int)
            == e[i].1,
    decreases e.len(),
{
    let d = e.drop_last();
    assert(e.take(i + 1).drop_last() =~= e.take(i));
    lemma_payloads_len(d);
    if i == e.len() - 1 {
        assert(e.take(i) =~= d);
        assert(e.take(i + 1) =~= e);
        assert(payloads(e).subrange(total_len(d) as int, total_len(e) as int) =~= e[i].1);
    } else {
        lemma_payload_at(d, i);
        assert(d.take(i) =~= e.take(i));
        assert(d.take(i + 1) =~= e.take(i + 1));
        lemma_total_len_take(d, i + 1);
        assert(payloads(e).subrange(
            total_len(e.take(i)) as int,
            total_len(e.take(i + 1)) as int,
        ) =~= payloads(d).subrange(total_len(d.take(i)) as int, total_len(d.take(i + 1)) as int));
    }
}

/// Where entry `i` of a written file starts.
pub open spec fn written_offset(e: Seq<EntryView>, i: int) -> nat {
    payload_base(e.len()) + total_len(e.take(i))
}

#[verifier::spinoff_prover]
proof fn lemma_record_in_file(e: Seq<EntryView>, i: int)
    requires
        0 <= i < e.len(),
    ensures
        ico_bytes(e).subrange(6 + 16 * i, 6 + 16 * i + 16) == record(
            e[i].0,
            e[i].1.len(),
            written_offset(e, i),
        ),
        ico_bytes(e).len() == payload_base(e.len()) + total_len(e),
{
    let base = payload_base(e.len());
    let r = records(e, base);
    lemma_records_len(e, base);
    lemma_payloads_len(e);
    lemma_record_at(e, base, i);
    let b = ico_bytes(e);
    assert forall|k: int| 0 <= k < 16 implies b[6 + 16 * i + k] == #[trigger] r[16 * i + k] by {}
    assert(b.subrange(6 + 16 * i, 6 + 16 * i + 16) =~= r.subrange(16 * i, 16 * i + 16));
}

#[verifier::spinoff_prover]
proof fn lemma_payload_in_file(e: Seq<EntryView>, i: int)
    requires
        0 <= i < e.len(),
    ensures
        ico_bytes(e).subrange(
            written_offset(e, i) as int,
            (written_offset(e, i) + e[i].1.len()) as int,
        ) == e[i].1,
        written_offset(e, i) + e[i].1.len() <= ico_bytes(e).len(),
{
    let base = payload_base(e.len());
    lemma_records_len(e, base);
    lemma_payloads_len(e);
    lemma_payload_at(e, i);
    lemma_total_len_take(e, i + 1);
    let b = ico_bytes(e);
    let p = payloads(e);
    let lo = total_len(e.take(i)) as int;
    let hi = total_len(e.take(i + 1)) as int;
    assert forall|k: int| lo <= k < hi implies b[base + k] == #[trigger] p[k] by {}
    assert(b.subrange(written_offset(e, i) as int, (written_offset(e, i) + e[i].1.len()) as int)
        =~= p.subrange(lo, hi));
}

proof fn lemma_read_record(b: Seq<u8>, at: int, n: u32, len: nat, off: nat)
    requires
        0 <= at,
        at + 16 <= b.len(),
        b.subrange(at, at + 16) == record(n, len, off),
        1 <= n <= 256,
        len < 0x1_0000_0000,
        off < 0x1_0000_0000,
    ensures
        declared_of(b[at]) == n as nat,
        read32(b, at + 8) == len,
        read32(b, at + 12) == off,
{
    let rec = record(n, len, off);
    assert(b[at] == b.subrange(at, at + 16)[0]);
    assert(b[at] == dim_byte(n));
    lemma_le32(len);
    lemma_le32(off);
    assert forall|k: int| 8 <= k < 16 implies b[at + k] == #[trigger] rec[k] by {
        assert(b[at + k] == b.subrange(at, at + 16)[k]);
    }
    assert(rec.subrange(8, 12) =~= le32(len));
    assert(rec.subrange(12, 16) =~= le32(off));
    assert(read32(b, at + 8) == read32(le32(len), 0));
    assert(read32(b, at + 12) == read32(le32(off), 0));
}

#[verifier::spinoff_prover]
proof fn lemma_entry_reads_back(e: Seq<EntryView>, i: int)
    requires
        0 <= i < e.len(),
        1 <= e[i].0 <= 256,
        payload_base(e.len()) + total_len(e) < 0x1_0000_0000,
    ensures
        entry_of(ico_bytes(e), i) == (e[i].0 as nat, e[i].1.len(), written_offset(e, i)),
        entry_of(ico_bytes(e), i).2 + entry_of(ico_bytes(e), i).1 <= ico_bytes(e).len(),
{
    lemma_record_in_file(e, i);
    lemma_payload_in_file(e, i);
    lemma_read_record(ico_bytes(e), 6 + 16 * i, e[i].0, e[i].1.len(), written_offset(e, i));
}

/// Reading back a file that `write_ico` wrote gives each entry its side, the
/// length of its PNG and the place it was written to, and the bytes there are
/// that PNG — for up to 65535 entries of 1 to 256 pixels whose file stays under
/// 4 GiB, which is what the format can hold.
#[verifier::spinoff_prover]
pub proof fn law_ico_reads_back(e: Seq<EntryView>)
    requires
        e.len() < 65536,
        forall|i: int| 0 <= i < e.len() ==> 1 <= (#[trigger] e[i]).0 <= 256,
        payload_base(e.len()) + total_len(e) < 0x1_0000_0000,
    ensures
        directory_of(ico_bytes(e)) == Ok::<Seq<(nat, nat, nat)>, IcoFault>(
            Seq::new(e.len(), |i: int| (e[i].0 as nat, e[i].1.len(), written_offset(e, i))),
        ),
        forall|i: int|
            0 <= i < e.len() ==> ico_bytes(e).subrange(
                written_offset(e, i) as int,
                (written_offset(e, i) + e[i].1.len()) as int,
            ) == #[trigger] e[i].1,
{
    let b = ico_bytes(e);
    let n = e.len();
    lemma_records_len(e, payload_base(n));
    lemma_payloads_len(e);
    lemma_le16(n);
    assert(b[4] == le16(n)[0] && b[5] == le16(n)[1]);
    assert(read16(b, 4) == n);
    assert forall|i: int| 0 <= i < n implies #[trigger] entry_of(b, i).2 + entry_of(b, i).1
        <= b.len() by {
        lemma_entry_reads_back(e, i);
    }
    lemma_no_fault(b, n, 0);
    assert forall|i: int| 0 <= i < n implies #[trigger] entry_of(b, i) == (
        e[i].0 as nat,
        e[i].1.len(),
        written_offset(e, i),
    ) by {
        lemma_entry_reads_back(e, i);
    }
    assert(Seq::new(n, |i: int| entry_of(b, i)) =~= Seq::new(
        n,
        |i: int| (e[i].0 as nat, e[i].1.len(), written_offset(e, i)),
    ));
    assert forall|i: int| 0 <= i < n implies b.subrange(
        written_offset(e, i) as int,
        (written_offset(e, i) + e[i].1.len()) as int,
    ) == #[trigger] e[i].1 by {
        lemma_payload_in_file(e, i);
    }
}

proof fn lemma_no_fault(b: Seq<u8>, count: nat, k: nat)
    requires
        6 + 16 * count <= b.len(),
        forall|i: int| 0 <= i < count ==> #[trigger] entry_of(b, i).2 + entry_of(b, i).1 <= b.len(),
    ensures
        fault_from(b, count, k) is None,
    decreases count - k,
{
    if k < count {
        assert(entry_of(b, k as int).2 + entry_of(b, k as int).1 <= b.len());
        lemma_no_fault(b, count, k + 1);
    }
}

} // verus!
