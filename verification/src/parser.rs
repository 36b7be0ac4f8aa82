//! What the front end computes around its outside tools: the arguments of
//! the C preprocessor, and the report of the syntax errors in a parse tree.
use vstd::prelude::*;

verus! {

// ---------------------------------------------------------------------------
// The C preprocessor
// ---------------------------------------------------------------------------

/// The arguments `cpp` is run with: `-E -P -I<system_dir> <path>`
/// (bytes 45, 69, 80, 73 are `-`, `E`, `P`, `I`).
pub fn preprocessor_args(path: &[u8], system_dir: &[u8]) -> (args: Vec<Vec<u8>>)
    ensures
        args@.len() == 4,
        args@[0]@ == seq![45u8, 69u8],
        args@[1]@ == seq![45u8, 80u8],
        args@[2]@ == seq![45u8, 73u8] + system_dir@,
        args@[3]@ == path@,
{
    let mut dir_flag: Vec<u8> = vec![45u8, 73u8];
    let mut i: usize = 0;
    while i < system_dir.len()
        invariant
            0 <= i <= system_dir@.len(),
            dir_flag@ == seq![45u8, 73u8] + system_dir@.take(i as int),
        decreases system_dir@.len() - i,
    {
        dir_flag.push(system_dir[i]);
        assert(system_dir@.take(i + 1) =~= system_dir@.take(i as int).push(system_dir@[i as int]));
        i = i + 1;
    }
    assert(system_dir@.take(system_dir@.len() as int) =~= system_dir@);
    let mut args: Vec<Vec<u8>> = Vec::new();
    args.push(vec![45u8, 69u8]);
    args.push(vec![45u8, 80u8]);
    args.push(dir_flag);
    args.push(vstd::slice::slice_to_vec(path));
    args
}

/// The preprocessed source: what `cpp` wrote, if it succeeded.
pub fn preprocessor_result(success: bool, stdout: Vec<u8>) -> (r: Option<Vec<u8>>)
    ensures
        success ==> r == Some(stdout),
        !success ==> r is None,
{
    if !success {
        return None;
    }
    Some(stdout)
}

// ---------------------------------------------------------------------------
// Syntax errors
// ---------------------------------------------------------------------------

/// A node of a parse tree, as the error report sees it: whether it is an
/// error or a missing node, the bytes it spans, and its children in order.
#[derive(Debug, PartialEq)]
pub struct SyntaxNode {
    pub is_error: bool,
    pub is_missing: bool,
    pub start: usize,
    pub end: usize,
    pub children: Vec<SyntaxNode>,
}

/// The byte ranges of the error and missing nodes of a tree, in pre-order;
/// the walk does not descend into an error or missing node.
pub open spec fn error_ranges(n: SyntaxNode) -> Seq<(usize, usize)>
    decreases n, 1nat,
{
    if n.is_error || n.is_missing {
        seq![(n.start, n.end)]
    } else {
        forest_errors(n.children@)
    }
}

/// The error ranges of a list of sibling trees, in order.
pub open spec fn forest_errors(ns: Seq<SyntaxNode>) -> Seq<(usize, usize)>
    decreases ns, 0nat,
{
    if ns.len() == 0 {
        seq![]
    } else {
        forest_errors(ns.drop_last()) + error_ranges(ns.last())
    }
}

fn collect_into(n: &SyntaxNode, out: &mut Vec<(usize, usize)>)
    ensures
        final(out)@ == old(out)@ + error_ranges(*n),
    decreases n,
{
    if n.is_error || n.is_missing {
        out.push((n.start, n.end));
        return;
    }
    let ghost start = out@;
    let mut i: usize = 0;
    while i < n.children.len()
        invariant
            0 <= i <= n.children@.len(),
            out@ == start + forest_errors(n.children@.take(i as int)),
        decreases n.children@.len() - i,
    {
        proof {
            assert(n.children@.take(i + 1).drop_last() =~= n.children@.take(i as int));
            assert(n.children@.take(i + 1).last() == n.children@[i as int]);
        }
        collect_into(&n.children[i], out);
        assert(out@ =~= start + forest_errors(n.children@.take(i + 1)));
        i = i + 1;
    }
    assert(n.children@.take(n.children@.len() as int) =~= n.children@);
}

/// The byte ranges of the syntax errors that the report shows, in order.
pub fn collect_errors(tree: &SyntaxNode) -> (r: Vec<(usize, usize)>)
    ensures
        r@ == error_ranges(*tree),
{
    let mut r: Vec<(usize, usize)> = Vec::new();
    collect_into(tree, &mut r);
    assert(r@ =~= error_ranges(*tree));
    r
}


/// Some node of the tree is an error or a missing node.
pub open spec fn some_error(n: SyntaxNode) -> bool
    decreases n, 1nat,
{
    n.is_error || n.is_missing || forest_some_error(n.children@)
}

/// Some node of one of the trees is an error or a missing node.
pub open spec fn forest_some_error(ns: Seq<SyntaxNode>) -> bool
    decreases ns, 0nat,
{
    if ns.len() == 0 {
        false
    } else {
        forest_some_error(ns.drop_last()) || some_error(ns.last())
    }
}

proof fn lemma_errors_iff_some(n: SyntaxNode)
    ensures
        error_ranges(n).len() > 0 <==> some_error(n),
    decreases n, 1nat,
{
    if !(n.is_error || n.is_missing) {
        lemma_forest_errors_iff_some(n.children@);
    }
}

proof fn lemma_forest_errors_iff_some(ns: Seq<SyntaxNode>)
    ensures
        forest_errors(ns).len() > 0 <==> forest_some_error(ns),
    decreases ns, 0nat,
{
    if ns.len() > 0 {
        lemma_forest_errors_iff_some(ns.drop_last());
        lemma_errors_iff_some(ns.last());
    }
}

/// The report shows an error exactly when some node of the tree is an
/// error or a missing node, though it does not look inside those nodes.
pub proof fn law_report_iff_error(n: SyntaxNode)
    ensures
        error_ranges(n).len() > 0 <==> some_error(n),
{
    lemma_errors_iff_some(n);
}

/// Whether the tree has a syntax error: some node of it is an error or a
/// missing node.
pub fn has_errors(tree: &SyntaxNode) -> (b: bool)
    ensures
        b == some_error(*tree),
{
    let r = collect_errors(tree);
    proof {
        lemma_errors_iff_some(*tree);
    }
    r.len() > 0
}

// Bytes of the report: 10 `\n`, 13 `\r`, 9 `\t`, 32 ` `, 94 `^`, 126 `~`,
// 27 the escape that starts a terminal colour sequence.

/// `\x1b[31mSyntax error:\x1b[0m\n`: the report's heading, in red.
pub open spec fn error_header() -> Seq<u8> {
    seq![27u8, 91, 51, 49, 109, 83, 121, 110, 116, 97, 120, 32, 101, 114, 114, 111, 114, 58, 27, 91, 48, 109, 10]
}

/// `\x1b[34m`: the marker line is drawn in blue.
pub open spec fn blue() -> Seq<u8> {
    seq![27u8, 91, 51, 52, 109]
}

/// `\n\x1b[0m`: the end of a marker line.
pub open spec fn marker_end() -> Seq<u8> {
    seq![10u8, 27, 91, 48, 109]
}

/// The start of the line that holds byte `k`: just after the last `\n`
/// before `k`, or `0`.
pub open spec fn line_begin(b: Seq<u8>, k: int) -> int
    decreases k,
{
    if k <= 0 {
        0
    } else if b[k - 1] == 10 {
        k
    } else {
        line_begin(b, k - 1)
    }
}

/// The first `\n` at or after `a`, or the length of `b` when there is none.
pub open spec fn next_newline(b: Seq<u8>, a: int) -> int
    decreases b.len() - a,
{
    if a >= b.len() {
        b.len() as int
    } else if b[a] == 10 {
        a
    } else {
        next_newline(b, a + 1)
    }
}

/// Under byte `i`: `^` at the start of the error, `~` over the rest of
/// it, a space elsewhere.
pub open spec fn marker(i: int, start: int, end: int) -> u8 {
    if i == start {
        94
    } else if start <= i < end {
        126
    } else {
        32
    }
}

/// How byte `c` is shown: a tab as four spaces, any other byte as itself.
pub open spec fn text_of(c: u8) -> Seq<u8> {
    if c == 9 {
        seq![32u8, 32, 32, 32]
    } else {
        seq![c]
    }
}

/// What is drawn under byte `c` with marker `m`: four markers under a tab,
/// a `\r` under a `\r`, the marker under anything else.
pub open spec fn marks_of(c: u8, m: u8) -> Seq<u8> {
    if c == 9 {
        seq![m, m, m, m]
    } else if c == 13 {
        seq![13u8]
    } else {
        seq![m]
    }
}

/// Bytes `a..n` of the source as shown.
pub open spec fn line_text(b: Seq<u8>, a: int, n: int) -> Seq<u8>
    decreases n - a,
{
    if n <= a {
        seq![]
    } else {
        line_text(b, a, n - 1) + text_of(b[n - 1])
    }
}

/// The markers under bytes `a..n`.
pub open spec fn line_marks(b: Seq<u8>, a: int, n: int, start: int, end: int) -> Seq<u8>
    decreases n - a,
{
    if n <= a {
        seq![]
    } else {
        line_marks(b, a, n - 1, start, end) + marks_of(b[n - 1], marker(n - 1, start, end))
    }
}

/// A source line `a..n` (`n` its `\n`), then the markers under it in blue.
pub open spec fn rendered_line(b: Seq<u8>, a: int, n: int, start: int, end: int) -> Seq<u8> {
    line_text(b, a, n) + seq![10u8] + blue() + line_marks(b, a, n, start, end) + marker_end()
}

/// The lines from `a` on, each followed by its markers, up to and including
/// the first line that reaches the end of the error. A last line without a
/// `\n` is not shown.
pub open spec fn render_lines(b: Seq<u8>, a: int, start: int, end: int) -> Seq<u8>
    decreases b.len() - a,
{
    if a >= b.len() {
        seq![]
    } else {
        let n = next_newline(b, a);
        proof {
            lemma_next_newline_bounds(b, a);
        }
        if n >= b.len() {
            seq![]
        } else {
            rendered_line(b, a, n, start, end) + if n >= end {
                seq![]
            } else {
                render_lines(b, n + 1, start, end)
            }
        }
    }
}

/// The report of one syntax error spanning bytes `start..end`: the heading,
/// then the lines from the one where the error starts.
pub open spec fn error_report(b: Seq<u8>, start: int, end: int) -> Seq<u8> {
    error_header() + render_lines(b, line_begin(b, start), start, end)
}

pub proof fn lemma_next_newline_bounds(b: Seq<u8>, a: int)
    ensures
        a <= b.len() ==> a <= next_newline(b, a) <= b.len(),
    decreases b.len() - a,
{
    if a < b.len() && b[a] != 10 {
        lemma_next_newline_bounds(b, a + 1);
    }
}

proof fn lemma_next_newline_at(b: Seq<u8>, a: int, i: int)
    requires
        0 <= a <= i <= b.len(),
        forall|k: int| a <= k < i ==> b[k] != 10,
        i == b.len() || b[i] == 10,
    ensures
        next_newline(b, a) == i,
    decreases i - a,
{
    if a < i {
        lemma_next_newline_at(b, a + 1, i);
    }
}

proof fn lemma_line_begin(b: Seq<u8>, k: int)
    requires
        0 <= k <= b.len(),
    ensures
        0 <= line_begin(b, k) <= k,
        forall|j: int| line_begin(b, k) <= j < k ==> b[j] != 10,
    decreases k,
{
    if k > 0 && b[k - 1] != 10 {
        lemma_line_begin(b, k - 1);
    }
}

/// The report of the syntax error that spans bytes `start..end` of
/// `bytes`, as the compiler writes it to standard error.
pub fn render_error(bytes: &[u8], start: usize, end: usize) -> (out: Vec<u8>)
    requires
        start <= bytes@.len(),
    ensures
        out@ == error_report(bytes@, start as int, end as int),
{
    let ghost b = bytes@;
    let mut out: Vec<u8> = vec![27u8, 91, 51, 49, 109, 83, 121, 110, 116, 97, 120, 32, 101, 114, 114,
        111, 114, 58, 27, 91, 48, 109, 10];
    assert(out@ == error_header());
    let mut i: usize = start;
    while i > 0 && bytes[i - 1] != 10
        invariant
            i <= start <= b.len(),
            b == bytes@,
            line_begin(b, start as int) == line_begin(b, i as int),
        decreases i,
    {
        i = i - 1;
    }
    let ghost a0: int = i as int;
    proof {
        lemma_line_begin(b, i as int);
    }
    let ghost mut a: int = i as int;
    let mut buf1: Vec<u8> = Vec::new();
    let mut buf2: Vec<u8> = vec![27u8, 91, 51, 52, 109];
    assert(buf2@ == blue());
    loop
        invariant_except_break
            0 <= a <= i <= b.len(),
            b == bytes@,
            forall|k: int| a <= k < i ==> b[k] != 10,
            out@ + render_lines(b, a, start as int, end as int) == error_header() + render_lines(
                b,
                a0,
                start as int,
                end as int,
            ),
            buf1@ == line_text(b, a, i as int),
            buf2@ == blue() + line_marks(b, a, i as int, start as int, end as int),
        ensures
            out@ == error_header() + render_lines(b, a0, start as int, end as int),
        decreases b.len() - i,
    {
        if i >= bytes.len() {
            proof {
                lemma_next_newline_at(b, a, b.len() as int);
                assert(render_lines(b, a, start as int, end as int) =~= Seq::<u8>::empty());
                assert(out@ + Seq::<u8>::empty() =~= out@);
            }
            break;
        }
        let c = bytes[i];
        let m: u8 = if i == start {
            94
        } else if start <= i && i < end {
            126
        } else {
            32
        };
        assert(m == marker(i as int, start as int, end as int));
        if c == 10 {
            proof {
                lemma_next_newline_at(b, a, i as int);
            }
            let ghost line = rendered_line(b, a, i as int, start as int, end as int);
            let ghost rest = if i >= end {
                Seq::<u8>::empty()
            } else {
                render_lines(b, i + 1, start as int, end as int)
            };
            assert(render_lines(b, a, start as int, end as int) == line + rest);
            buf1.push(10);
            buf2.push(10);
            buf2.push(27);
            buf2.push(91);
            buf2.push(48);
            buf2.push(109);
            let ghost before = out@;
            out.append(&mut buf1);
            out.append(&mut buf2);
            assert(out@ =~= before + line);
            assert(out@ + rest =~= before + (line + rest));
            if i >= end {
                assert(out@ =~= out@ + rest);
                break;
            }
            buf2 = vec![27u8, 91, 51, 52, 109];
            proof {
                a = i + 1;
            }
            assert(buf1@ =~= line_text(b, a, i + 1));
            assert(buf2@ =~= blue() + line_marks(b, a, i + 1, start as int, end as int));
        } else {
            if c == 13 {
                buf1.push(13);
                buf2.push(13);
            } else if c == 9 {
                buf1.push(32);
                buf1.push(32);
                buf1.push(32);
                buf1.push(32);
                buf2.push(m);
                buf2.push(m);
                buf2.push(m);
                buf2.push(m);
            } else {
                buf1.push(c);
                buf2.push(m);
            }
            assert(buf1@ =~= line_text(b, a, i + 1));
            assert(buf2@ =~= blue() + line_marks(b, a, i + 1, start as int, end as int));
        }
        i = i + 1;
    }
    out
}

/// Which lines the report shows. From a line start `a`, take the first
/// `\n` at or after `a`, at `n`: if there is none the report shows nothing
/// more; otherwise it shows the line `a..n`, and goes on with the next line
/// exactly when `n` lies before the end of the error.
pub proof fn law_render_lines(b: Seq<u8>, a: int, n: int, start: int, end: int)
    requires
        0 <= a <= n <= b.len(),
        forall|k: int| a <= k < n ==> b[k] != 10,
    ensures
        n == b.len() ==> render_lines(b, a, start, end) == Seq::<u8>::empty(),
        n < b.len() && b[n] == 10 && n < end ==> render_lines(b, a, start, end) == rendered_line(
            b,
            a,
            n,
            start,
            end,
        ) + render_lines(b, n + 1, start, end),
        n < b.len() && b[n] == 10 && n >= end ==> render_lines(b, a, start, end) == rendered_line(
            b,
            a,
            n,
            start,
            end,
        ),
{
    if n == b.len() || b[n] == 10 {
        lemma_next_newline_at(b, a, n);
    }
    if n < b.len() && b[n] == 10 && n >= end {
        assert(rendered_line(b, a, n, start, end) + Seq::<u8>::empty() =~= rendered_line(b, a, n, start, end));
    }
}

/// A line without tabs is shown byte for byte, and under each byte stands
/// `^` at the start of the error, `~` over the rest of it, a space
/// elsewhere, and a `\r` under a `\r`.
pub proof fn law_line_shown(b: Seq<u8>, a: int, n: int, start: int, end: int)
    requires
        0 <= a <= n <= b.len(),
        forall|k: int| a <= k < n ==> b[k] != 9,
    ensures
        line_text(b, a, n) == b.subrange(a, n),
        line_marks(b, a, n, start, end).len() == n - a,
        forall|k: int|
            a <= k < n ==> #[trigger] line_marks(b, a, n, start, end)[k - a] == if b[k] == 13 {
                13u8
            } else if k == start {
                94u8
            } else if start <= k < end {
                126u8
            } else {
                32u8
            },
    decreases n - a,
{
    if n > a {
        law_line_shown(b, a, n - 1, start, end);
        assert(line_text(b, a, n) =~= b.subrange(a, n));
        let m = line_marks(b, a, n, start, end);
        let m1 = line_marks(b, a, n - 1, start, end);
        assert(m == m1 + marks_of(b[n - 1], marker(n - 1, start, end)));
        assert forall|k: int| a <= k < n implies #[trigger] m[k - a] == if b[k] == 13 {
            13u8
        } else if k == start {
            94u8
        } else if start <= k < end {
            126u8
        } else {
            32u8
        } by {
            if k < n - 1 {
                assert(m[k - a] == m1[k - a]);
            }
        }
    } else {
        assert(line_text(b, a, n) =~= b.subrange(a, n));
    }
}

/// The errors reported for a tree: an error or missing node is reported
/// once, with its own range and nothing under it; any other node reports
/// what its children report, child by child in order.
pub proof fn law_error_ranges_cases(n: SyntaxNode, c: SyntaxNode)
    ensures
        (n.is_error || n.is_missing) ==> error_ranges(n) == seq![(n.start, n.end)],
        !(n.is_error || n.is_missing) && n.children@.len() == 0 ==> error_ranges(n) == Seq::<(usize, usize)>::empty(),
        forest_errors(seq![c]) == error_ranges(c),
        forall|ns: Seq<SyntaxNode>, m: Seq<SyntaxNode>|
            #[trigger] forest_errors(ns + m) == forest_errors(ns) + forest_errors(m),
{
    assert(seq![c].drop_last() =~= Seq::<SyntaxNode>::empty());
    assert(forest_errors(Seq::<SyntaxNode>::empty()) + error_ranges(c) =~= error_ranges(c));
    assert forall|ns: Seq<SyntaxNode>, m: Seq<SyntaxNode>|
        #[trigger] forest_errors(ns + m) == forest_errors(ns) + forest_errors(m) by {
        lemma_forest_errors_concat(ns, m);
    }
}

proof fn lemma_forest_errors_concat(ns: Seq<SyntaxNode>, m: Seq<SyntaxNode>)
    ensures
        forest_errors(ns + m) == forest_errors(ns) + forest_errors(m),
    decreases m.len(),
{
    if m.len() == 0 {
        assert(ns + m =~= ns);
        assert(forest_errors(ns) + Seq::<(usize, usize)>::empty() =~= forest_errors(ns));
    } else {
        lemma_forest_errors_concat(ns, m.drop_last());
        assert((ns + m).drop_last() =~= ns + m.drop_last());
        assert((ns + m).last() == m.last());
        assert(forest_errors(ns) + forest_errors(m.drop_last()) + error_ranges(m.last()) =~= forest_errors(
            ns,
        ) + (forest_errors(m.drop_last()) + error_ranges(m.last())));
    }
}

} // verus!
