//! Text that the splitter generates: numbers in decimal and hexadecimal, and
//! the assembly source that spells out a copy unit's bytes.
use vstd::prelude::*;
use vstd::string::StringSliceAdditionalSpecFns;

verus! {

/// The most byte values that the target assembler takes on one `DB` line.
pub const BYTES_PER_LINE: usize = 49;

pub const ASM_PROLOGUE: &'static str = ".386\n.MODEL flat\nPOD SEGMENT BYTE\n";

pub const ASM_EPILOGUE: &'static str = "POD ENDS\nEND\n";

pub const DB_DIRECTIVE: &'static str = "DB ";

pub const LIST_SEPARATOR: &'static str = ", ";

pub const NEWLINE: &'static str = "\n";

/// The ASCII digit for `d` (upper-case letters from ten on).
pub open spec fn digit(d: nat) -> u8 {
    if d < 10 {
        (48 + d) as u8
    } else {
        (55 + d) as u8
    }
}

pub open spec fn decimal_text(n: nat) -> Seq<u8>
    decreases n,
{
    if n < 10 {
        seq![digit(n)]
    } else {
        decimal_text(n / 10).push(digit(n % 10))
    }
}

pub open spec fn hex_text(n: nat) -> Seq<u8>
    decreases n,
{
    if n < 16 {
        seq![digit(n)]
    } else {
        hex_text(n / 16).push(digit(n % 16))
    }
}

/// Appends the bytes of `s` to `out`.
pub fn push_bytes(out: &mut Vec<u8>, s: &[u8])
    ensures
        final(out)@ == old(out)@ + s@,
{
    let mut i: usize = 0;
    while i < s.len()
        invariant
            0 <= i <= s@.len(),
            out@ == old(out)@ + s@.subrange(0, i as int),
        decreases s@.len() - i,
    {
        out.push(s[i]);
        i += 1;
        assert(s@.subrange(0, i as int) =~= s@.subrange(0, i - 1).push(s@[i - 1]));
    }
    assert(s@.subrange(0, s@.len() as int) =~= s@);
}

/// Appends the UTF-8 bytes of `s` to `out`.
pub fn push_str(out: &mut Vec<u8>, s: &str)
    ensures
        final(out)@ == old(out)@ + s.spec_bytes(),
{
    push_bytes(out, s.as_bytes());
}

/// `n` written in decimal.
pub fn decimal(n: u128) -> (r: Vec<u8>)
    ensures
        r@ == decimal_text(n as nat),
    decreases n,
{
    if n < 10 {
        let mut v = Vec::new();
        v.push((48 + n) as u8);
        assert(v@ =~= seq![digit(n as nat)]);
        v
    } else {
        let mut v = decimal(n / 10);
        v.push((48 + n % 10) as u8);
        v
    }
}

/// `n` written in upper-case hexadecimal, without a prefix.
pub fn hex(n: u128) -> (r: Vec<u8>)
    ensures
        r@ == hex_text(n as nat),
    decreases n,
{
    if n < 16 {
        let mut v = Vec::new();
        let d: u8 = if n < 10 { (48 + n) as u8 } else { (55 + n) as u8 };
        v.push(d);
        assert(v@ =~= seq![digit(n as nat)]);
        v
    } else {
        let mut v = hex(n / 16);
        let m = n % 16;
        let d: u8 = if m < 10 { (48 + m) as u8 } else { (55 + m) as u8 };
        v.push(d);
        v
    }
}

/// The values of `c` in decimal, separated by a comma and a space.
pub open spec fn value_list(c: Seq<u8>) -> Seq<u8>
    decreases c.len(),
{
    if c.len() == 0 {
        seq![]
    } else if c.len() == 1 {
        decimal_text(c[0] as nat)
    } else {
        value_list(c.drop_last()) + LIST_SEPARATOR.spec_bytes() + decimal_text(c.last() as nat)
    }
}

/// One `DB` directive holding the values of `c`.
pub open spec fn db_line(c: Seq<u8>) -> Seq<u8> {
    DB_DIRECTIVE.spec_bytes() + value_list(c) + NEWLINE.spec_bytes()
}

/// The number of `DB` lines that `d` takes.
pub open spec fn line_count(d: Seq<u8>) -> nat {
    ((d.len() + 48) / 49) as nat
}

/// The bytes of `d` that line `k` holds.
pub open spec fn line_bytes(d: Seq<u8>, k: int) -> Seq<u8> {
    let start = 49 * k;
    let end = if 49 * k + 49 <= d.len() { 49 * k + 49 } else { d.len() as int };
    d.subrange(start, end)
}

/// The first `k` `DB` lines of `d`, one after the other.
pub open spec fn db_lines(d: Seq<u8>, k: nat) -> Seq<u8>
    decreases k,
{
    if k == 0 {
        seq![]
    } else {
        db_lines(d, (k - 1) as nat) + db_line(line_bytes(d, k - 1))
    }
}

/// The bytes of the first `k` lines of `d`, one after the other.
pub open spec fn line_contents(d: Seq<u8>, k: nat) -> Seq<u8>
    decreases k,
{
    if k == 0 {
        seq![]
    } else {
        line_contents(d, (k - 1) as nat) + line_bytes(d, k - 1)
    }
}

/// The assembly source of a copy unit whose bytes are `d`.
pub open spec fn asm_source(d: Seq<u8>) -> Seq<u8> {
    ASM_PROLOGUE.spec_bytes() + db_lines(d, line_count(d)) + ASM_EPILOGUE.spec_bytes()
}

proof fn lemma_line_contents_prefix(d: Seq<u8>, k: nat)
    requires
        49 * k <= d.len() + 48,
    ensures
        line_contents(d, k) == d.subrange(0, if 49 * k <= d.len() { 49 * k as int } else { d.len() as int }),
    decreases k,
{
    if k > 0 {
        lemma_line_contents_prefix(d, (k - 1) as nat);
        assert(49 * (k - 1) == 49 * k - 49);
        assert(line_contents(d, k) =~= d.subrange(0, if 49 * k <= d.len() { 49 * k as int } else { d.len() as int }));
    } else {
        assert(line_contents(d, k) =~= d.subrange(0, 0));
    }
}

/// The `DB` lines of a copy unit carry every byte once and in order: each line
/// holds one to 49 values, every line but the last exactly 49, and the last one
/// holds the remainder of the length by 49 where that remainder is not zero.
pub proof fn lemma_lines_cover_bytes(d: Seq<u8>)
    ensures
        line_contents(d, line_count(d)) == d,
        forall|k: int| 0 <= k < line_count(d) ==> 1 <= #[trigger] line_bytes(d, k).len() <= 49,
        forall|k: int| 0 <= k < line_count(d) - 1 ==> #[trigger] line_bytes(d, k).len() == 49,
        d.len() % 49 != 0 ==> line_bytes(d, line_count(d) - 1).len() == d.len() % 49,
{
    let n = line_count(d);
    assert(49 * n <= d.len() + 48 && d.len() <= 49 * n) by (nonlinear_arith)
        requires n == (d.len() + 48) / 49;
    lemma_line_contents_prefix(d, n);
    assert(d.subrange(0, d.len() as int) =~= d);
    assert forall|k: int| 0 <= k < line_count(d) implies 1 <= #[trigger] line_bytes(d, k).len() <= 49 by {
        assert(49 * k + 49 <= 49 * n && 49 * k < d.len()) by (nonlinear_arith)
            requires 0 <= k < n, 49 * n <= d.len() + 48, n == (d.len() + 48) / 49;
    }
    assert forall|k: int| 0 <= k < line_count(d) - 1 implies #[trigger] line_bytes(d, k).len() == 49 by {
        assert(49 * k + 49 <= d.len()) by (nonlinear_arith)
            requires 0 <= k < n - 1, n == (d.len() + 48) / 49;
    }
    if d.len() % 49 != 0 {
        let k = n - 1;
        assert(49 * k + 49 > d.len() && d.len() - 49 * k == d.len() % 49 && 49 * k <= d.len()) by (nonlinear_arith)
            requires k == n - 1, n == (d.len() + 48) / 49, d.len() % 49 != 0;
    }
}


/// Appends one `DB` line holding `d[start..end]` to `out`.
fn push_db_line(out: &mut Vec<u8>, d: &[u8], start: usize, end: usize)
    requires
        start < end <= d@.len(),
    ensures
        final(out)@ == old(out)@ + db_line(d@.subrange(start as int, end as int)),
{
    let ghost base = out@;
    push_str(out, DB_DIRECTIVE);
    let mut j: usize = start;
    while j < end
        invariant
            start <= j <= end <= d@.len(),
            out@ == base + DB_DIRECTIVE.spec_bytes() + value_list(d@.subrange(start as int, j as int)),
        decreases end - j,
    {
        if j > start {
            push_str(out, LIST_SEPARATOR);
        }
        let mut v = decimal(d[j] as u128);
        out.append(&mut v);
        let ghost c = d@.subrange(start as int, j + 1);
        assert(c.drop_last() =~= d@.subrange(start as int, j as int));
        assert(out@ =~= base + DB_DIRECTIVE.spec_bytes() + value_list(c));
        j += 1;
    }
    push_str(out, NEWLINE);
    assert(out@ =~= base + db_line(d@.subrange(start as int, end as int)));
}

/// The assembly source that spells out `d[from..to]` as `DB` directives of at
/// most 49 values each, between the segment's prologue and epilogue.
pub fn copy_unit_source(d: &[u8], from: usize, to: usize) -> (r: Vec<u8>)
    requires
        from <= to <= d@.len(),
    ensures
        r@ == asm_source(d@.subrange(from as int, to as int)),
{
    let ghost sub = d@.subrange(from as int, to as int);
    let mut out: Vec<u8> = Vec::new();
    push_str(&mut out, ASM_PROLOGUE);
    let n = to - from;
    let mut start: usize = 0;
    let ghost mut k: nat = 0;
    while start < n
        invariant
            from <= to <= d@.len(),
            n == to - from,
            sub == d@.subrange(from as int, to as int),
            start == (if 49 * k <= n { (49 * k) as int } else { n as int }),
            k == 0 || 49 * (k - 1) < n,
            start <= n,
            out@ == ASM_PROLOGUE.spec_bytes() + db_lines(sub, k),
        decreases n - start,
    {
        let end: usize = if n - start <= BYTES_PER_LINE { n } else { start + BYTES_PER_LINE };
        assert(d@.subrange(from + start, from + end) =~= line_bytes(sub, k as int));
        push_db_line(&mut out, d, from + start, from + end);
        proof {
            assert(db_lines(sub, k + 1) == db_lines(sub, k) + db_line(line_bytes(sub, k as int)));
            assert(out@ =~= ASM_PROLOGUE.spec_bytes() + db_lines(sub, k + 1));
            k = k + 1;
        }
        start = end;
    }
    proof {
        assert(k == line_count(sub)) by (nonlinear_arith)
            requires 49 * k >= sub.len(), 49 * (k - 1) < sub.len() || k == 0, sub.len() == 0 ==> k == 0;
    }
    push_str(&mut out, ASM_EPILOGUE);
    assert(out@ =~= asm_source(sub));
    out
}

} // verus!
