//! Shell command output
//!
//! The text the shell's commands print, as bytes for the console. File
//! system access stays with the caller; what is computed from what it
//! reads is here: the hex dump of a file read in chunks, and the fixed
//! messages.

use vstd::prelude::*;
use vstd::string::{StrSliceExecFns, StringSliceAdditionalSpecFns};

verus! {

/// Bytes per hex dump line.
pub const DUMP_LINE_LEN: usize = 16;

/// Form feed, which clears the console.
pub const FF: u8 = 12;

/// Line feed.
pub const LF: u8 = 10;

/// The lower-case hex digit for `d` (below 16).
pub open spec fn hex_digit(d: nat) -> u8 {
    if d < 10 {
        (0x30 + d) as u8
    } else {
        (0x61 + d - 10) as u8
    }
}

/// The last `n` hex digits of `v`.
pub open spec fn hex_fixed(v: nat, n: nat) -> Seq<u8>
    decreases n,
{
    if n == 0 {
        Seq::empty()
    } else {
        hex_fixed(v / 16, (n - 1) as nat).push(hex_digit(v % 16))
    }
}

/// Number of hex digits `v` needs.
pub open spec fn hex_len(v: nat) -> nat
    decreases v,
{
    if v < 16 {
        1
    } else {
        1 + hex_len(v / 16)
    }
}

/// `v` in lower-case hex, zero-padded to at least `width` digits.
pub open spec fn hex(v: nat, width: nat) -> Seq<u8> {
    hex_fixed(v, if hex_len(v) > width { hex_len(v) } else { width })
}

/// `v` in decimal.
pub open spec fn decimal(v: nat) -> Seq<u8>
    decreases v,
{
    if v < 10 {
        seq![(0x30 + v) as u8]
    } else {
        decimal(v / 10).push((0x30 + v % 10) as u8)
    }
}

/// How a byte shows in the ASCII column: itself if graphic or space, else
/// a dot.
pub open spec fn shown(b: u8) -> u8 {
    if 0x20 <= b <= 0x7E {
        b
    } else {
        0x2E
    }
}

/// Hex column `j` of a canonical line: two digits and a space for a byte,
/// three spaces past the data, and an extra space after the eighth column.
pub open spec fn hex_cell(line: Seq<u8>, j: nat) -> Seq<u8> {
    let cell = if j < line.len() {
        hex(line[j as int] as nat, 2).push(0x20)
    } else {
        seq![0x20u8, 0x20, 0x20]
    };
    if j == 7 {
        cell.push(0x20)
    } else {
        cell
    }
}

/// The first `j` hex columns of a canonical line.
pub open spec fn hex_columns(line: Seq<u8>, j: nat) -> Seq<u8>
    decreases j,
{
    if j == 0 {
        Seq::empty()
    } else {
        hex_columns(line, (j - 1) as nat) + hex_cell(line, (j - 1) as nat)
    }
}

/// The ASCII column of a canonical line.
pub open spec fn ascii_column(line: Seq<u8>) -> Seq<u8> {
    Seq::new(line.len(), |i: int| shown(line[i]))
}

/// Word `m` of a plain line: bytes `2m` and `2m + 1` little-endian as four
/// hex digits, or an odd last byte as two, after a space.
pub open spec fn word_text(line: Seq<u8>, m: nat) -> Seq<u8> {
    let i = 2 * m;
    if i + 1 < line.len() {
        seq![0x20u8] + hex((line[i as int] as nat) + 256 * (line[i + 1 as int] as nat), 4)
    } else {
        seq![0x20u8] + hex(line[i as int] as nat, 2)
    }
}

/// The first `m` words of a plain line.
pub open spec fn words(line: Seq<u8>, m: nat) -> Seq<u8>
    decreases m,
{
    if m == 0 {
        Seq::empty()
    } else {
        words(line, (m - 1) as nat) + word_text(line, (m - 1) as nat)
    }
}

/// One dump line for the bytes `line` at file offset `offset`: canonical
/// (`-C`) with an 8-digit offset, hex columns and an ASCII column, or plain
/// with a 7-digit offset and 16-bit words.
pub open spec fn line_text(canonical: bool, offset: nat, line: Seq<u8>) -> Seq<u8> {
    if canonical {
        hex(offset, 8) + seq![0x20u8, 0x20] + hex_columns(line, 16) + seq![0x20u8, 0x7C] + ascii_column(line) + seq![0x7Cu8, LF]
    } else {
        hex(offset, 7) + words(line, ((line.len() + 1) / 2) as nat) + seq![LF]
    }
}

/// The dump of the first `n` full lines of `s`.
pub open spec fn lines_text(canonical: bool, s: Seq<u8>, n: nat) -> Seq<u8>
    decreases n,
{
    if n == 0 {
        Seq::empty()
    } else {
        let k = (n - 1) as nat;
        lines_text(canonical, s, k) + line_text(canonical, 16 * k, s.subrange(16 * k as int, 16 * k as int + 16))
    }
}

/// The whole dump of `s`: its full lines, then a short last line if the
/// length is not a multiple of 16.
pub open spec fn dump_text(canonical: bool, s: Seq<u8>) -> Seq<u8> {
    let n = s.len() / 16;
    let tail = s.skip(16 * n as int);
    lines_text(canonical, s, n) + if tail.len() > 0 { line_text(canonical, 16 * n, tail) } else { Seq::empty() }
}

/// Sixteen to the power `n`.
pub open spec fn pow16(n: nat) -> nat
    decreases n,
{
    if n == 0 {
        1
    } else {
        16 * pow16((n - 1) as nat)
    }
}

proof fn lemma_hex_len_positive(t: nat)
    ensures
        hex_len(t) >= 1,
    decreases t,
{
    if t >= 16 {
        lemma_hex_len_positive(t / 16);
    }
}

proof fn lemma_hex_len_le(v: nat, k: nat)
    requires
        k >= 1,
        v < pow16(k),
    ensures
        hex_len(v) <= k,
    decreases k,
{
    if v >= 16 {
        let p = pow16((k - 1) as nat);
        if k == 1 {
            assert(pow16(1) == 16 * pow16(0));
        }
        assert(k >= 2);
        assert(v < 16 * p);
        assert(v / 16 < p) by (nonlinear_arith)
            requires
                v < 16 * p,
        ;
        lemma_hex_len_le(v / 16, (k - 1) as nat);
    }
}

proof fn lemma_hex_fixed_len(v: nat, n: nat)
    ensures
        hex_fixed(v, n).len() == n,
    decreases n,
{
    if n > 0 {
        lemma_hex_fixed_len(v / 16, (n - 1) as nat);
    }
}

/// Appends `v` in hex, at least `width` digits, to `out`.
pub fn push_hex(out: &mut Vec<u8>, v: u64, width: usize)
    requires
        width <= 64,
    ensures
        final(out)@ == old(out)@ + hex(v as nat, width as nat),
{
    proof {
        assert(pow16(16) == 0x1_0000_0000_0000_0000nat) by {
            reveal_with_fuel(pow16, 17);
        }
        lemma_hex_len_le(v as nat, 16);
        lemma_hex_len_positive(v as nat);
    }
    let mut n: usize = 1;
    let mut t: u64 = v;
    while t >= 16
        invariant
            n >= 1,
            n + hex_len(t as nat) == hex_len(v as nat) + 1,
            hex_len(v as nat) <= 16,
        decreases t,
    {
        proof {
            lemma_hex_len_positive(t as nat / 16);
        }
        t = t / 16;
        n = n + 1;
    }
    assert(hex_len(v as nat) == n);
    let digits = if n > width { n } else { width };
    let ghost want = hex_fixed(v as nat, digits as nat);
    proof {
        lemma_hex_fixed_len(v as nat, digits as nat);
    }
    let mut buf: Vec<u8> = Vec::new();
    let mut k: usize = 0;
    while k < digits
        invariant
            k <= digits,
            buf@.len() == k,
        decreases digits - k,
    {
        buf.push(0);
        k = k + 1;
    }
    let mut rem: u64 = v;
    let mut j: usize = digits;
    while j > 0
        invariant
            j <= digits,
            buf@.len() == digits,
            want == hex_fixed(v as nat, digits as nat),
            want.len() == digits,
            hex_fixed(rem as nat, j as nat) == want.take(j as int),
            forall|i: int| j <= i < digits ==> #[trigger] buf@[i] == want[i],
        decreases j,
    {
        let d = rem % 16;
        let ch: u8 = if d < 10 { 0x30 + d as u8 } else { 0x61 + (d - 10) as u8 };
        proof {
            assert(hex_fixed(rem as nat, j as nat) == hex_fixed(rem as nat / 16, (j - 1) as nat).push(hex_digit(rem as nat % 16)));
            assert(want.take(j as int).last() == want[j - 1]);
            assert(want.take(j as int).drop_last() =~= want.take(j - 1));
            assert(ch == hex_digit(rem as nat % 16));
        }
        buf.set(j - 1, ch);
        rem = rem / 16;
        j = j - 1;
    }
    proof {
        assert(buf@ =~= want);
    }
    let mut i: usize = 0;
    let ghost start = out@;
    while i < buf.len()
        invariant
            i <= buf@.len(),
            out@ == start + buf@.take(i as int),
        decreases buf@.len() - i,
    {
        out.push(buf[i]);
        i = i + 1;
        assert(out@ =~= start + buf@.take(i as int));
    }
    assert(buf@.take(buf@.len() as int) =~= buf@);
}

/// Appends the dump line for `line` at file offset `offset` to `out`:
/// see `line_text`.
pub fn push_line(out: &mut Vec<u8>, canonical: bool, offset: u64, line: &[u8])
    requires
        line@.len() <= DUMP_LINE_LEN,
    ensures
        final(out)@ == old(out)@ + line_text(canonical, offset as nat, line@),
{
    let ghost start = out@;
    let len = line.len();
    if canonical {
        push_hex(out, offset, 8);
        out.push(0x20);
        out.push(0x20);
        let ghost p0 = out@;
        let mut j: usize = 0;
        while j < DUMP_LINE_LEN
            invariant
                j <= DUMP_LINE_LEN,
                len == line@.len(),
                out@ == p0 + hex_columns(line@, j as nat),
            decreases DUMP_LINE_LEN - j,
        {
            let ghost before = out@;
            if j < len {
                push_hex(out, line[j] as u64, 2);
                out.push(0x20);
            } else {
                out.push(0x20);
                out.push(0x20);
                out.push(0x20);
            }
            if j == 7 {
                out.push(0x20);
            }
            proof {
                assert(out@ =~= before + hex_cell(line@, j as nat));
                assert(hex_columns(line@, (j + 1) as nat) == hex_columns(line@, j as nat) + hex_cell(line@, j as nat));
            }
            j = j + 1;
        }
        out.push(0x20);
        out.push(0x7C);
        let ghost p1 = out@;
        let mut k: usize = 0;
        while k < len
            invariant
                k <= len,
                len == line@.len(),
                out@ == p1 + ascii_column(line@).take(k as int),
            decreases len - k,
        {
            let b = line[k];
            let c: u8 = if 0x20 <= b && b <= 0x7E { b } else { 0x2E };
            out.push(c);
            k = k + 1;
            assert(out@ =~= p1 + ascii_column(line@).take(k as int));
        }
        out.push(0x7C);
        out.push(LF);
        proof {
            assert(ascii_column(line@).take(len as int) =~= ascii_column(line@));
            assert(out@ =~= start + line_text(canonical, offset as nat, line@));
        }
    } else {
        push_hex(out, offset, 7);
        let ghost p0 = out@;
        let chunks = (len + 1) / 2;
        let mut m: usize = 0;
        while m < chunks
            invariant
                m <= chunks,
                chunks == (line@.len() + 1) / 2,
                len == line@.len(),
                len <= DUMP_LINE_LEN,
                out@ == p0 + words(line@, m as nat),
            decreases chunks - m,
        {
            let ghost before = out@;
            let i = 2 * m;
            out.push(0x20);
            if i + 1 < len {
                let w: u64 = line[i] as u64 + 256 * (line[i + 1] as u64);
                push_hex(out, w, 4);
            } else {
                push_hex(out, line[i] as u64, 2);
            }
            proof {
                assert(out@ =~= before + word_text(line@, m as nat));
            }
            m = m + 1;
        }
        out.push(LF);
        proof {
            assert(out@ =~= start + line_text(canonical, offset as nat, line@));
        }
    }
}

/// The dump lines before line `n` do not change as more bytes come.
pub proof fn lemma_lines_prefix(c: bool, s: Seq<u8>, t: Seq<u8>, n: nat)
    requires
        16 * n <= s.len(),
        s.len() <= t.len(),
        t.take(s.len() as int) == s,
    ensures
        lines_text(c, s, n) == lines_text(c, t, n),
    decreases n,
{
    if n > 0 {
        let k = (n - 1) as nat;
        lemma_lines_prefix(c, s, t, k);
        assert forall|j: int| 0 <= j < s.len() implies #[trigger] s[j] == t[j] by {
            assert(t.take(s.len() as int)[j] == t[j]);
        }
        assert(s.subrange(16 * k as int, 16 * k as int + 16) =~= t.subrange(16 * k as int, 16 * k as int + 16));
    }
}

/// A hex dump of a file read in chunks: bytes are gathered into 16-byte
/// lines, a line straddling two reads is joined up, and each full line is
/// printed as soon as it is complete.
pub struct HexDump {
    canonical: bool,
    line: Vec<u8>,
    offset: u64,
    seen: Ghost<Seq<u8>>,
    emitted: Ghost<Seq<u8>>,
}

impl HexDump {
    /// Whether the dump is canonical (`-C`).
    pub closed spec fn is_canonical(&self) -> bool {
        self.canonical
    }

    /// All bytes fed so far.
    pub closed spec fn spec_seen(&self) -> Seq<u8> {
        self.seen@
    }

    /// All text printed so far.
    pub closed spec fn spec_emitted(&self) -> Seq<u8> {
        self.emitted@
    }

    /// The bytes of the line being gathered follow the full lines printed
    /// so far.
    pub closed spec fn wf(&self) -> bool {
        &&& self.line@.len() < DUMP_LINE_LEN
        &&& self.offset as nat == 16 * (self.seen@.len() / 16)
        &&& self.line@ == self.seen@.skip(self.offset as int)
        &&& self.emitted@ == lines_text(self.canonical, self.seen@, self.seen@.len() / 16)
    }

    /// A dump that has seen nothing.
    pub fn new(canonical: bool) -> (r: Self)
        ensures
            r.wf(),
            r.is_canonical() == canonical,
            r.spec_seen() == Seq::<u8>::empty(),
            r.spec_emitted() == Seq::<u8>::empty(),
    {
        let r = HexDump { canonical, line: Vec::new(), offset: 0, seen: Ghost(Seq::empty()), emitted: Ghost(Seq::empty()) };
        assert(r.line@ =~= r.seen@.skip(0));
        r
    }

    /// Takes the next bytes read, `data`, and returns the text of the lines
    /// they complete.
    pub fn feed(&mut self, data: &[u8]) -> (r: Vec<u8>)
        requires
            old(self).wf(),
            old(self).spec_seen().len() + data@.len() + 16 <= u64::MAX,
        ensures
            final(self).wf(),
            final(self).is_canonical() == old(self).is_canonical(),
            final(self).spec_seen() == old(self).spec_seen() + data@,
            final(self).spec_emitted() == old(self).spec_emitted() + r@,
    {
        let mut out: Vec<u8> = Vec::new();
        let ghost s0 = self.seen@;
        let ghost e0 = self.emitted@;
        let mut i: usize = 0;
        while i < data.len()
            invariant
                self.wf(),
                self.canonical == old(self).canonical,
                i <= data@.len(),
                s0 == old(self).spec_seen(),
                e0 == old(self).spec_emitted(),
                self.seen@ == s0 + data@.take(i as int),
                self.emitted@ == e0 + out@,
                s0.len() + data@.len() + 16 <= u64::MAX,
            decreases data@.len() - i,
        {
            let b = data[i];
            let ghost s = self.seen@;
            let ghost n = s.len() / 16;
            self.line.push(b);
            self.seen = Ghost(s.push(b));
            proof {
                assert(data@.take(i + 1) =~= data@.take(i as int).push(b));
                assert(self.seen@ =~= s0 + data@.take(i + 1));
                assert(self.line@ =~= self.seen@.skip(self.offset as int));
            }
            if self.line.len() == DUMP_LINE_LEN {
                let ghost before = out@;
                push_line(&mut out, self.canonical, self.offset, self.line.as_slice());
                proof {
                    let s1 = self.seen@;
                    assert(s1.len() == 16 * n + 16);
                    assert(s1.len() / 16 == n + 1);
                    assert(s1.take(s.len() as int) =~= s);
                    lemma_lines_prefix(self.canonical, s, s1, n);
                    assert(self.line@ =~= s1.subrange(16 * n as int, 16 * n as int + 16));
                    assert(lines_text(self.canonical, s1, n + 1) == lines_text(self.canonical, s1, n) + line_text(self.canonical, 16 * n, s1.subrange(16 * n as int, 16 * n as int + 16)));
                }
                self.emitted = Ghost(self.emitted@ + line_text(self.canonical, self.offset as nat, self.line@));
                self.offset = self.offset + 16;
                self.line.clear();
                proof {
                    assert(self.emitted@ =~= e0 + out@);
                    assert(self.line@ =~= self.seen@.skip(self.offset as int));
                }
            } else {
                proof {
                    let s1 = self.seen@;
                    assert(s1.len() / 16 == n);
                    assert(s1.take(s.len() as int) =~= s);
                    lemma_lines_prefix(self.canonical, s, s1, n);
                }
            }
            i = i + 1;
        }
        proof {
            assert(data@.take(data@.len() as int) =~= data@);
        }
        out
    }

    /// The text still to print once the file has been read: the last,
    /// short line, if any.
    pub fn finish(&self) -> (r: Vec<u8>)
        requires
            self.wf(),
        ensures
            self.spec_emitted() + r@ == dump_text(self.is_canonical(), self.spec_seen()),
    {
        let mut out: Vec<u8> = Vec::new();
        if self.line.len() > 0 {
            push_line(&mut out, self.canonical, self.offset, self.line.as_slice());
        }
        proof {
            let s = self.seen@;
            let n = s.len() / 16;
            assert(s.skip(16 * n as int) == self.line@);
            if self.line@.len() == 0 {
                assert(out@ =~= Seq::<u8>::empty());
            }
        }
        out
    }
}

/// After the first `k` feeds of a run of `HexDump` states, a dump has seen
/// the first `k` chunks and printed the first `k` outputs, end to end.
proof fn lemma_dump_run(canonical: bool, chunks: Seq<Seq<u8>>, outs: Seq<Seq<u8>>, states: Seq<HexDump>, k: int)
    requires
        states.len() == chunks.len() + 1,
        outs.len() == chunks.len(),
        states[0].is_canonical() == canonical,
        states[0].spec_seen() == Seq::<u8>::empty(),
        states[0].spec_emitted() == Seq::<u8>::empty(),
        forall|i: int| 0 <= i < chunks.len() ==> {
            &&& (#[trigger] states[i + 1]).is_canonical() == states[i].is_canonical()
            &&& states[i + 1].spec_seen() == states[i].spec_seen() + chunks[i]
            &&& states[i + 1].spec_emitted() == states[i].spec_emitted() + outs[i]
        },
        0 <= k <= chunks.len(),
    ensures
        states[k].is_canonical() == canonical,
        states[k].spec_seen() == chunks.take(k).flatten(),
        states[k].spec_emitted() == outs.take(k).flatten(),
    decreases k,
{
    if k == 0 {
        assert(chunks.take(0) =~= Seq::<Seq<u8>>::empty());
        assert(outs.take(0) =~= Seq::<Seq<u8>>::empty());
    } else {
        lemma_dump_run(canonical, chunks, outs, states, k - 1);
        assert(states[(k - 1) + 1].spec_seen() == states[k - 1].spec_seen() + chunks[k - 1]);
        assert(chunks.take(k) =~= chunks.take(k - 1).push(chunks[k - 1]));
        assert(outs.take(k) =~= outs.take(k - 1).push(outs[k - 1]));
        chunks.take(k - 1).lemma_flatten_push(chunks[k - 1]);
        outs.take(k - 1).lemma_flatten_push(outs[k - 1]);
    }
}

/// However a file is split into reads, the dump prints the same text: for
/// a run of `HexDump` states from a new dump, each fed the next of
/// `chunks` and printing the next of `outs` (as `feed` ensures), followed
/// by `rest` from `finish`, the text printed is the dump of all the chunks
/// end to end.
pub proof fn law_chunked_dump_is_whole(
    canonical: bool,
    chunks: Seq<Seq<u8>>,
    outs: Seq<Seq<u8>>,
    states: Seq<HexDump>,
    rest: Seq<u8>,
)
    requires
        states.len() == chunks.len() + 1,
        outs.len() == chunks.len(),
        states[0].is_canonical() == canonical,
        states[0].spec_seen() == Seq::<u8>::empty(),
        states[0].spec_emitted() == Seq::<u8>::empty(),
        forall|i: int| 0 <= i < chunks.len() ==> {
            &&& (#[trigger] states[i + 1]).is_canonical() == states[i].is_canonical()
            &&& states[i + 1].spec_seen() == states[i].spec_seen() + chunks[i]
            &&& states[i + 1].spec_emitted() == states[i].spec_emitted() + outs[i]
        },
        states[chunks.len() as int].spec_emitted() + rest == dump_text(
            states[chunks.len() as int].is_canonical(),
            states[chunks.len() as int].spec_seen(),
        ),
    ensures
        outs.flatten() + rest == dump_text(canonical, chunks.flatten()),
{
    let n = chunks.len() as int;
    lemma_dump_run(canonical, chunks, outs, states, n);
    assert(chunks.take(n) =~= chunks);
    assert(outs.take(n) =~= outs);
}

/// Hex dump of a whole buffer: see `dump_text`.
pub fn hexdump(canonical: bool, data: &[u8]) -> (r: Vec<u8>)
    requires
        data@.len() + 16 <= u64::MAX,
    ensures
        r@ == dump_text(canonical, data@),
{
    let mut d = HexDump::new(canonical);
    let mut out = d.feed(data);
    let rest = d.finish();
    let mut i: usize = 0;
    let ghost start = out@;
    while i < rest.len()
        invariant
            i <= rest@.len(),
            out@ == start + rest@.take(i as int),
        decreases rest@.len() - i,
    {
        out.push(rest[i]);
        i = i + 1;
        assert(out@ =~= start + rest@.take(i as int));
    }
    proof {
        assert(rest@.take(rest@.len() as int) =~= rest@);
        assert(Seq::<u8>::empty() + data@ =~= data@);
        assert(Seq::<u8>::empty() + start =~= start);
    }
    out
}

/// Appends the bytes of `s` to `out`.
pub fn push_bytes(out: &mut Vec<u8>, s: &[u8])
    ensures
        final(out)@ == old(out)@ + s@,
{
    let ghost start = out@;
    let mut i: usize = 0;
    while i < s.len()
        invariant
            i <= s@.len(),
            out@ == start + s@.take(i as int),
        decreases s@.len() - i,
    {
        out.push(s[i]);
        i = i + 1;
        assert(out@ =~= start + s@.take(i as int));
    }
    assert(s@.take(s@.len() as int) =~= s@);
}

/// Appends the bytes of text `s` to `out`.
pub fn push_str(out: &mut Vec<u8>, s: &str)
    ensures
        final(out)@ == old(out)@ + s.spec_bytes(),
{
    let b = s.as_bytes_vec();
    push_bytes(out, b.as_slice());
}

/// Appends `v` in decimal to `out`.
pub fn push_decimal(out: &mut Vec<u8>, v: u64)
    ensures
        final(out)@ == old(out)@ + decimal(v as nat),
    decreases v,
{
    if v < 10 {
        out.push(0x30 + v as u8);
        assert(decimal(v as nat) == seq![(0x30 + v) as u8]);
    } else {
        push_decimal(out, v / 10);
        out.push(0x30 + (v % 10) as u8);
        assert(decimal(v as nat) == decimal(v as nat / 10).push((0x30 + v % 10) as u8));
    }
}

/// The screen-clearing output: a form feed.
pub fn clear() -> (r: Vec<u8>)
    ensures
        r@ == seq![FF],
{
    let mut out: Vec<u8> = Vec::new();
    out.push(FF);
    out
}

/// What `echo` prints: its arguments and a new line.
pub fn echo(arg: &[u8]) -> (r: Vec<u8>)
    ensures
        r@ == arg@.push(LF),
{
    let mut out: Vec<u8> = Vec::new();
    push_bytes(&mut out, arg);
    out.push(LF);
    assert(out@ =~= arg@.push(LF));
    out
}

/// The help text.
pub open spec fn help_text() -> Seq<u8> {
    "Available commands:\n  cat      - Read file content to screen\n  clear    - Clear the screen\n  echo     - Print arguments\n  help     - Show this help\n  hexdump  - Raw file output\n  ls       - List files in directory\n  time     - Show system time since boot [ms]\n  truncate - Truncate file\n  touch    - Create empty file\n  rm       - Delete file\n  write    - Write text to file\n".spec_bytes()
}

/// The help text, listing the commands.
pub fn help() -> (r: Vec<u8>)
    ensures
        r@ == help_text(),
{
    let mut out: Vec<u8> = Vec::new();
    push_str(&mut out, "Available commands:\n  cat      - Read file content to screen\n  clear    - Clear the screen\n  echo     - Print arguments\n  help     - Show this help\n  hexdump  - Raw file output\n  ls       - List files in directory\n  time     - Show system time since boot [ms]\n  truncate - Truncate file\n  touch    - Create empty file\n  rm       - Delete file\n  write    - Write text to file\n");
    assert(out@ =~= help_text());
    out
}

/// What `time` prints for `elapsed_ms` milliseconds since boot.
pub fn time(elapsed_ms: u64) -> (r: Vec<u8>)
    ensures
        r@ == decimal(elapsed_ms as nat) + " [ms]\n".spec_bytes(),
{
    let mut out: Vec<u8> = Vec::new();
    push_decimal(&mut out, elapsed_ms);
    push_str(&mut out, " [ms]\n");
    assert(out@ =~= decimal(elapsed_ms as nat) + " [ms]\n".spec_bytes());
    out
}

/// The message for a command the shell does not know.
pub fn unknown(cmd: &[u8]) -> (r: Vec<u8>)
    ensures
        r@ == "Unknown command: ".spec_bytes() + cmd@ + seq![LF],
{
    let mut out: Vec<u8> = Vec::new();
    push_str(&mut out, "Unknown command: ");
    push_bytes(&mut out, cmd);
    out.push(LF);
    assert(out@ =~= "Unknown command: ".spec_bytes() + cmd@ + seq![LF]);
    out
}

/// Bytes `cat` keeps for reading: what is read goes after the bytes
/// carried over from the previous read.
pub const CAT_BUF_LEN: usize = 256;

/// What `core::str::from_utf8` finds in `bytes`: `None` when they are
/// valid UTF-8; otherwise how many leading bytes are valid, and the length
/// of the invalid sequence met after them, or `None` when the input ends
/// inside a character.
pub uninterp spec fn utf8_scan(bytes: Seq<u8>) -> Option<(usize, Option<usize>)>;

/// Checks `bytes` with `core::str::from_utf8`; on an error the result
/// holds `Utf8Error::valid_up_to` and `Utf8Error::error_len`. Since the
/// valid prefix is the longest one that converts, it is shorter than the
/// input when the input does not convert.
#[verifier::external_body]
fn utf8_check(bytes: &[u8]) -> (r: Option<(usize, Option<usize>)>)
    ensures
        r == utf8_scan(bytes@),
        r matches Some((v, _)) ==> v < bytes@.len(),
{
    match core::str::from_utf8(bytes) {
        Ok(_) => None,
        Err(e) => Some((e.valid_up_to(), e.error_len())),
    }
}

/// What `cat` does with what it has read.
#[derive(Debug)]
pub enum CatOutput {
    /// Print these bytes, which are text.
    Text(Vec<u8>),
    /// The file is not text: stop.
    NotText,
}

/// What `cat` prints of `filled`, the carried-over bytes followed by those
/// just read, given what the UTF-8 check found in them, and what it
/// carries over to the next read: all of it when it is text; only the
/// valid part when the rest may be a character cut off by the end of the
/// read, carrying that rest over; nothing when an invalid byte was met.
pub open spec fn cat_step(filled: Seq<u8>, scan: Option<(usize, Option<usize>)>) -> (Option<Seq<u8>>, Seq<u8>) {
    match scan {
        None => (Some(filled), Seq::empty()),
        Some((v, bad)) => if bad is Some {
            (None, filled)
        } else {
            (Some(filled.subrange(0, v as int)), filled.subrange(v as int, filled.len() as int))
        },
    }
}

/// Turns what `cat` reads from a file into text to print, keeping a
/// character that a read cut in two for the next read.
pub struct CatDecoder {
    carried: Vec<u8>,
}

impl CatDecoder {
    /// The bytes carried over.
    pub closed spec fn carried_spec(&self) -> Seq<u8> {
        self.carried@
    }

    /// Nothing carried over.
    pub fn new() -> (r: Self)
        ensures
            r.carried_spec() == Seq::<u8>::empty(),
    {
        CatDecoder { carried: Vec::new() }
    }

    /// How many bytes the next read may bring.
    pub fn room(&self) -> (r: usize)
        ensures
            r == if self.carried_spec().len() < CAT_BUF_LEN { (CAT_BUF_LEN - self.carried_spec().len()) as usize } else { 0 },
    {
        if self.carried.len() < CAT_BUF_LEN {
            CAT_BUF_LEN - self.carried.len()
        } else {
            0
        }
    }

    /// Takes the bytes `read` just read: see `cat_step`.
    pub fn feed(&mut self, read: &[u8]) -> (r: CatOutput)
        ensures
            ({
                let filled = old(self).carried_spec() + read@;
                let (text, carried) = cat_step(filled, utf8_scan(filled));
                &&& final(self).carried_spec() == carried
                &&& match text {
                    Some(t) => r matches CatOutput::Text(out) && out@ == t,
                    None => r is NotText,
                }
            }),
    {
        let mut filled: Vec<u8> = Vec::new();
        filled.append(&mut self.carried);
        let mut i: usize = 0;
        while i < read.len()
            invariant
                i <= read@.len(),
                filled@ == old(self).carried_spec() + read@.subrange(0, i as int),
            decreases read@.len() - i,
        {
            filled.push(read[i]);
            i = i + 1;
            assert(filled@ =~= old(self).carried_spec() + read@.subrange(0, i as int));
        }
        assert(read@.subrange(0, read@.len() as int) =~= read@);
        let scan = utf8_check(filled.as_slice());
        self.settle(filled, scan)
    }

    /// Takes `filled`, the bytes carried over followed by those just read,
    /// given `scan`, what the UTF-8 check found in them: see `cat_step`.
    pub fn settle(&mut self, filled: Vec<u8>, scan: Option<(usize, Option<usize>)>) -> (r: CatOutput)
        requires
            scan matches Some((v, None)) ==> v <= filled@.len(),
        ensures
            ({
                let (text, carried) = cat_step(filled@, scan);
                &&& final(self).carried_spec() == carried
                &&& match text {
                    Some(t) => r matches CatOutput::Text(out) && out@ == t,
                    None => r is NotText,
                }
            }),
    {
        let mut filled = filled;
        match scan {
            None => {
                self.carried = Vec::new();
                assert(self.carried@ =~= Seq::<u8>::empty());
                CatOutput::Text(filled)
            },
            Some((valid, bad)) => {
                if bad.is_some() {
                    self.carried = filled;
                    CatOutput::NotText
                } else {
                    let rest = filled.split_off(valid);
                    self.carried = rest;
                    CatOutput::Text(filled)
                }
            },
        }
    }
}

} // verus!
