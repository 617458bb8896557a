//! Helpers of the strategy-editing workbench: the line diff shown
//! between the stored and the edited source, and the bundled strategy
//! templates.

use vstd::prelude::*;

verus! {

/// One line of a diff: `kind` is `" "` for a line both sides share,
/// `"-"` for a line only the original text has, `"+"` for a line only
/// the edited text has.
pub struct DiffLine {
    pub kind: String,
    pub line: String,
}

/// The views of a sequence of strings.
pub open spec fn views_of(v: Seq<String>) -> Seq<Seq<char>> {
    Seq::new(v.len(), |i: int| v[i]@)
}

/// A line terminated by `"\r\n"` has the carriage return stripped.
pub open spec fn strip_cr(l: Seq<char>) -> Seq<char> {
    if l.len() > 0 && l.last() == '\r' {
        l.drop_last()
    } else {
        l
    }
}

/// The lines of `s`, with `acc` prefixed to the first of them: text is
/// split at each newline, a carriage return just before a newline is
/// stripped, and a trailing newline produces no final empty line.
pub open spec fn lines_from(s: Seq<char>, acc: Seq<char>) -> Seq<Seq<char>>
    decreases s.len(),
{
    if s.len() == 0 {
        if acc.len() == 0 {
            seq![]
        } else {
            seq![acc]
        }
    } else if s[0] == '\n' {
        seq![strip_cr(acc)] + lines_from(s.drop_first(), seq![])
    } else {
        lines_from(s.drop_first(), acc.push(s[0]))
    }
}

/// The lines of a text.
pub open spec fn lines_of(s: Seq<char>) -> Seq<Seq<char>> {
    lines_from(s, seq![])
}

/// Relies on `str::lines`: it splits at each `'\n'`, strips a `'\r'`
/// standing just before one, and yields no final empty line when the
/// text ends in a line terminator — which is exactly [`lines_of`].  The
/// iterator is collected into owned lines; there are fewer lines than
/// `usize::MAX`, since a `str` holds at most `isize::MAX` bytes and
/// every line consumes at least one byte beyond the first.
#[verifier::external_body]
fn split_lines(s: &str) -> (r: Vec<String>)
    ensures
        views_of(r@) == lines_of(s@),
        r@.len() < usize::MAX,
{
    s.lines().map(|l| l.to_string()).collect()
}

/// Length of the longest common subsequence of `a[i..]` and `b[j..]`.
pub open spec fn lcs_len(a: Seq<Seq<char>>, b: Seq<Seq<char>>, i: int, j: int) -> int
    decreases a.len() + b.len() - i - j,
{
    if i >= a.len() || j >= b.len() {
        0
    } else if a[i] == b[j] {
        1 + lcs_len(a, b, i + 1, j + 1)
    } else {
        let x = lcs_len(a, b, i + 1, j);
        let y = lcs_len(a, b, i, j + 1);
        if x >= y {
            x
        } else {
            y
        }
    }
}

/// A common subsequence is no longer than either remaining suffix.
proof fn lemma_lcs_len_bounds(a: Seq<Seq<char>>, b: Seq<Seq<char>>, i: int, j: int)
    requires
        0 <= i <= a.len(),
        0 <= j <= b.len(),
    ensures
        0 <= lcs_len(a, b, i, j),
        lcs_len(a, b, i, j) <= a.len() - i,
        lcs_len(a, b, i, j) <= b.len() - j,
    decreases a.len() + b.len() - i - j,
{
    if i < a.len() && j < b.len() {
        lemma_lcs_len_bounds(a, b, i + 1, j + 1);
        lemma_lcs_len_bounds(a, b, i + 1, j);
        lemma_lcs_len_bounds(a, b, i, j + 1);
    }
}

/// The lines a diff claims the original text consists of: those marked
/// `" "` or `"-"`.
pub open spec fn source_lines(d: Seq<DiffLine>) -> Seq<Seq<char>>
    decreases d.len(),
{
    if d.len() == 0 {
        seq![]
    } else {
        let rest = source_lines(d.drop_last());
        if d.last().kind@ != "+"@ {
            rest.push(d.last().line@)
        } else {
            rest
        }
    }
}

/// The lines a diff claims the edited text consists of: those marked
/// `" "` or `"+"`.
pub open spec fn target_lines(d: Seq<DiffLine>) -> Seq<Seq<char>>
    decreases d.len(),
{
    if d.len() == 0 {
        seq![]
    } else {
        let rest = target_lines(d.drop_last());
        if d.last().kind@ != "-"@ {
            rest.push(d.last().line@)
        } else {
            rest
        }
    }
}

/// The three marks a diff line may carry.
pub open spec fn is_diff_kind(k: Seq<char>) -> bool {
    k == " "@ || k == "-"@ || k == "+"@
}

/// The kind mark and the line of each diff entry.
pub open spec fn pairs_of(d: Seq<DiffLine>) -> Seq<(Seq<char>, Seq<char>)> {
    d.map_values(|x: DiffLine| (x.kind@, x.line@))
}

/// How many entries a suffix cursor still has in front of it.
pub open spec fn suffix_len(len: int, i: int) -> int {
    if i < len {
        len - i
    } else {
        0
    }
}

/// The exact script the diff emits from cursors `i` into `a` and `j`
/// into `b`: a shared line where the texts agree, otherwise a removal
/// when stepping over `a[i]` keeps at least as long a common
/// subsequence as stepping over `b[j]` — so on a tie the removal comes
/// before the insertion — and the leftovers of either text at the end.
pub open spec fn diff_walk(a: Seq<Seq<char>>, b: Seq<Seq<char>>, i: int, j: int) -> Seq<
    (Seq<char>, Seq<char>),
>
    decreases suffix_len(a.len() as int, i) + suffix_len(b.len() as int, j),
{
    if 0 <= i < a.len() && 0 <= j < b.len() {
        if a[i] == b[j] {
            seq![(" "@, a[i])] + diff_walk(a, b, i + 1, j + 1)
        } else if lcs_len(a, b, i + 1, j) >= lcs_len(a, b, i, j + 1) {
            seq![("-"@, a[i])] + diff_walk(a, b, i + 1, j)
        } else {
            seq![("+"@, b[j])] + diff_walk(a, b, i, j + 1)
        }
    } else if 0 <= i < a.len() && j >= b.len() {
        seq![("-"@, a[i])] + diff_walk(a, b, i + 1, j)
    } else if 0 <= j < b.len() && i >= a.len() {
        seq![("+"@, b[j])] + diff_walk(a, b, i, j + 1)
    } else {
        seq![]
    }
}

/// Appending a diff entry appends its pair, and prepending that pair to
/// a tail is the same as pushing it first.
proof fn lemma_pairs_push(d: Seq<DiffLine>, x: DiffLine, w: Seq<(Seq<char>, Seq<char>)>)
    ensures
        pairs_of(d.push(x)) == pairs_of(d).push((x.kind@, x.line@)),
        pairs_of(d).push((x.kind@, x.line@)) + w == pairs_of(d) + (seq![(x.kind@, x.line@)] + w),
{
    assert(pairs_of(d.push(x)) =~= pairs_of(d).push((x.kind@, x.line@)));
    assert(pairs_of(d).push((x.kind@, x.line@)) + w =~= pairs_of(d) + (seq![(x.kind@, x.line@)]
        + w));
}

/// The three diff marks are pairwise distinct strings.
proof fn lemma_kinds_distinct()
    ensures
        " "@ != "+"@,
        " "@ != "-"@,
        "-"@ != "+"@,
{
    reveal_strlit(" ");
    reveal_strlit("+");
    reveal_strlit("-");
    assert(" "@[0] == ' ' && "+"@[0] == '+' && "-"@[0] == '-');
}

/// How one appended diff line extends the two reconstructions.
proof fn lemma_recon_push(d: Seq<DiffLine>, x: DiffLine)
    ensures
        source_lines(d.push(x)) == if x.kind@ != "+"@ {
            source_lines(d).push(x.line@)
        } else {
            source_lines(d)
        },
        target_lines(d.push(x)) == if x.kind@ != "-"@ {
            target_lines(d).push(x.line@)
        } else {
            target_lines(d)
        },
{
    assert(d.push(x).drop_last() =~= d);
    assert(d.push(x).last() == x);
}

/// A line-based diff of two texts, as a longest-common-subsequence
/// walk.
///
/// The output is a minimal edit script: every line carries one of the
/// three marks, deleting the `"+"` lines restores the original line for
/// line, deleting the `"-"` lines restores the edited text, and the
/// script's length is exactly `m + n - lcs` — no shorter script exists
/// for the computed common subsequence length.  The whole script is
/// pinned by [`diff_walk`], which prefers a removal over an insertion
/// when either step would do.
pub fn compute_diff(original: &str, edited: &str) -> (out: Vec<DiffLine>)
    ensures
        source_lines(out@) == lines_of(original@),
        target_lines(out@) == lines_of(edited@),
        out@.len() == lines_of(original@).len() + lines_of(edited@).len() - lcs_len(
            lines_of(original@),
            lines_of(edited@),
            0,
            0,
        ),
        forall|k: int| 0 <= k < out@.len() ==> is_diff_kind((#[trigger] out@[k]).kind@),
        pairs_of(out@) == diff_walk(lines_of(original@), lines_of(edited@), 0, 0),
{
    let orig = split_lines(original);
    let edit = split_lines(edited);
    diff_lines(&orig, &edit)
}

/// The diff of two line sequences; see [`compute_diff`].
pub fn diff_lines(orig: &Vec<String>, edit: &Vec<String>) -> (out: Vec<DiffLine>)
    requires
        orig@.len() < usize::MAX,
        edit@.len() < usize::MAX,
    ensures
        source_lines(out@) == views_of(orig@),
        target_lines(out@) == views_of(edit@),
        out@.len() == orig@.len() + edit@.len() - lcs_len(views_of(orig@), views_of(edit@), 0, 0),
        forall|k: int| 0 <= k < out@.len() ==> is_diff_kind((#[trigger] out@[k]).kind@),
        pairs_of(out@) == diff_walk(views_of(orig@), views_of(edit@), 0, 0),
{
    let ghost a = views_of(orig@);
    let ghost b = views_of(edit@);
    let m = orig.len();
    let n = edit.len();

    // dp[i][j] will hold the common-subsequence length of the suffixes
    // starting at i and j; row m and column n stay zero.
    let mut dp: Vec<Vec<usize>> = Vec::new();
    let mut r: usize = 0;
    while r <= m
        invariant
            0 <= r <= m + 1,
            m < usize::MAX,
            n < usize::MAX,
            dp@.len() == r as int,
            forall|p: int| 0 <= p < r as int ==> (#[trigger] dp@[p])@.len() == n + 1,
            forall|p: int, c: int|
                0 <= p < r as int && 0 <= c <= n as int ==> (#[trigger] dp@[p]@[c]) == 0,
        decreases m + 1 - r,
    {
        let mut row: Vec<usize> = Vec::new();
        let mut c: usize = 0;
        while c <= n
            invariant
                0 <= c <= n + 1,
                n < usize::MAX,
                row@.len() == c as int,
                forall|q: int| 0 <= q < c as int ==> (#[trigger] row@[q]) == 0,
            decreases n + 1 - c,
        {
            row.push(0);
            c = c + 1;
        }
        dp.push(row);
        r = r + 1;
    }

    let mut i: usize = m;
    while i > 0
        invariant
            0 <= i <= m,
            m == orig@.len() && n == edit@.len(),
            a == views_of(orig@) && b == views_of(edit@),
            dp@.len() == m + 1,
            forall|p: int| 0 <= p <= m as int ==> (#[trigger] dp@[p])@.len() == n + 1,
            forall|p: int, c: int|
                i as int <= p <= m as int && 0 <= c <= n as int ==> (#[trigger] dp@[p]@[c])
                    == lcs_len(a, b, p, c),
            forall|p: int, c: int|
                0 <= p < i as int && 0 <= c <= n as int ==> (#[trigger] dp@[p]@[c]) == 0,
        decreases i,
    {
        i = i - 1;
        let mut j: usize = n;
        while j > 0
            invariant
                0 <= i < m,
                0 <= j <= n,
                m == orig@.len() && n == edit@.len(),
                a == views_of(orig@) && b == views_of(edit@),
                dp@.len() == m + 1,
                forall|p: int| 0 <= p <= m as int ==> (#[trigger] dp@[p])@.len() == n + 1,
                forall|p: int, c: int|
                    (i as int) < p <= m as int && 0 <= c <= n as int ==> (#[trigger] dp@[p]@[c])
                        == lcs_len(a, b, p, c),
                forall|c: int|
                    j as int <= c <= n as int ==> (#[trigger] dp@[i as int]@[c]) == lcs_len(
                        a,
                        b,
                        i as int,
                        c,
                    ),
                forall|p: int, c: int|
                    0 <= p < i as int && 0 <= c <= n as int ==> (#[trigger] dp@[p]@[c]) == 0,
            decreases j,
        {
            j = j - 1;
            proof {
                lemma_lcs_len_bounds(a, b, i as int + 1, j as int + 1);
                lemma_lcs_len_bounds(a, b, i as int + 1, j as int);
                lemma_lcs_len_bounds(a, b, i as int, j as int + 1);
            }
            let v: usize = if orig[i] == edit[j] {
                dp[i + 1][j + 1] + 1
            } else {
                let down = dp[i + 1][j];
                let right = dp[i][j + 1];
                if down >= right {
                    down
                } else {
                    right
                }
            };
            dp[i][j] = v;
        }
    }

    // Walk the table, emitting shared lines along the common
    // subsequence and one-sided lines otherwise.
    let mut out: Vec<DiffLine> = Vec::new();
    let mut i: usize = 0;
    let mut j: usize = 0;
    proof {
        assert(pairs_of(out@) + diff_walk(a, b, 0, 0) =~= diff_walk(a, b, 0, 0));
    }
    while i < m && j < n
        invariant
            0 <= i <= m,
            0 <= j <= n,
            m == orig@.len() && n == edit@.len(),
            a == views_of(orig@) && b == views_of(edit@),
            dp@.len() == m + 1,
            forall|p: int| 0 <= p <= m as int ==> (#[trigger] dp@[p])@.len() == n + 1,
            forall|p: int, c: int|
                0 <= p <= m as int && 0 <= c <= n as int ==> (#[trigger] dp@[p]@[c]) == lcs_len(
                    a,
                    b,
                    p,
                    c,
                ),
            source_lines(out@) == a.subrange(0, i as int),
            target_lines(out@) == b.subrange(0, j as int),
            out@.len() + lcs_len(a, b, 0, 0) == i + j + lcs_len(a, b, i as int, j as int),
            forall|t: int| 0 <= t < out@.len() ==> is_diff_kind((#[trigger] out@[t]).kind@),
            diff_walk(a, b, 0, 0) == pairs_of(out@) + diff_walk(a, b, i as int, j as int),
        decreases m - i + n - j,
    {
        proof {
            lemma_kinds_distinct();
            lemma_lcs_len_bounds(a, b, i as int + 1, j as int);
            lemma_lcs_len_bounds(a, b, i as int, j as int + 1);
            assert(a[i as int] == orig@[i as int]@);
            assert(b[j as int] == edit@[j as int]@);
        }
        if orig[i] == edit[j] {
            let d = DiffLine { kind: " ".to_owned(), line: orig[i].clone() };
            proof {
                lemma_recon_push(out@, d);
                assert(a.subrange(0, i as int + 1) =~= a.subrange(0, i as int).push(a[i as int]));
                assert(b.subrange(0, j as int + 1) =~= b.subrange(0, j as int).push(b[j as int]));
                assert(diff_walk(a, b, i as int, j as int) == seq![(" "@, a[i as int])]
                    + diff_walk(a, b, i as int + 1, j as int + 1));
                lemma_pairs_push(out@, d, diff_walk(a, b, i as int + 1, j as int + 1));
            }
            out.push(d);
            i = i + 1;
            j = j + 1;
        } else if dp[i + 1][j] >= dp[i][j + 1] {
            let d = DiffLine { kind: "-".to_owned(), line: orig[i].clone() };
            proof {
                lemma_recon_push(out@, d);
                assert(a.subrange(0, i as int + 1) =~= a.subrange(0, i as int).push(a[i as int]));
                assert(diff_walk(a, b, i as int, j as int) == seq![("-"@, a[i as int])]
                    + diff_walk(a, b, i as int + 1, j as int));
                lemma_pairs_push(out@, d, diff_walk(a, b, i as int + 1, j as int));
            }
            out.push(d);
            i = i + 1;
        } else {
            let d = DiffLine { kind: "+".to_owned(), line: edit[j].clone() };
            proof {
                lemma_recon_push(out@, d);
                assert(b.subrange(0, j as int + 1) =~= b.subrange(0, j as int).push(b[j as int]));
                assert(diff_walk(a, b, i as int, j as int) == seq![("+"@, b[j as int])]
                    + diff_walk(a, b, i as int, j as int + 1));
                lemma_pairs_push(out@, d, diff_walk(a, b, i as int, j as int + 1));
            }
            out.push(d);
            j = j + 1;
        }
    }
    while i < m
        invariant
            0 <= i <= m,
            0 <= j <= n,
            i < m ==> j == n,
            m == orig@.len() && n == edit@.len(),
            a == views_of(orig@) && b == views_of(edit@),
            source_lines(out@) == a.subrange(0, i as int),
            target_lines(out@) == b.subrange(0, j as int),
            out@.len() + lcs_len(a, b, 0, 0) == i + j + lcs_len(a, b, i as int, j as int),
            forall|t: int| 0 <= t < out@.len() ==> is_diff_kind((#[trigger] out@[t]).kind@),
            diff_walk(a, b, 0, 0) == pairs_of(out@) + diff_walk(a, b, i as int, j as int),
        decreases m - i,
    {
        proof {
            lemma_kinds_distinct();
            assert(a[i as int] == orig@[i as int]@);
        }
        let d = DiffLine { kind: "-".to_owned(), line: orig[i].clone() };
        proof {
            lemma_recon_push(out@, d);
            assert(a.subrange(0, i as int + 1) =~= a.subrange(0, i as int).push(a[i as int]));
            assert(diff_walk(a, b, i as int, j as int) == seq![("-"@, a[i as int])] + diff_walk(
                a,
                b,
                i as int + 1,
                j as int,
            ));
            lemma_pairs_push(out@, d, diff_walk(a, b, i as int + 1, j as int));
        }
        out.push(d);
        i = i + 1;
    }
    while j < n
        invariant
            i == m,
            0 <= j <= n,
            m == orig@.len() && n == edit@.len(),
            a == views_of(orig@) && b == views_of(edit@),
            source_lines(out@) == a.subrange(0, i as int),
            target_lines(out@) == b.subrange(0, j as int),
            out@.len() + lcs_len(a, b, 0, 0) == i + j + lcs_len(a, b, i as int, j as int),
            forall|t: int| 0 <= t < out@.len() ==> is_diff_kind((#[trigger] out@[t]).kind@),
            diff_walk(a, b, 0, 0) == pairs_of(out@) + diff_walk(a, b, i as int, j as int),
        decreases n - j,
    {
        proof {
            lemma_kinds_distinct();
            assert(b[j as int] == edit@[j as int]@);
        }
        let d = DiffLine { kind: "+".to_owned(), line: edit[j].clone() };
        proof {
            lemma_recon_push(out@, d);
            assert(b.subrange(0, j as int + 1) =~= b.subrange(0, j as int).push(b[j as int]));
            assert(diff_walk(a, b, i as int, j as int) == seq![("+"@, b[j as int])] + diff_walk(
                a,
                b,
                i as int,
                j as int + 1,
            ));
            lemma_pairs_push(out@, d, diff_walk(a, b, i as int, j as int + 1));
        }
        out.push(d);
        j = j + 1;
    }
    proof {
        assert(a.subrange(0, m as int) =~= a);
        assert(b.subrange(0, n as int) =~= b);
        lemma_lcs_len_bounds(a, b, 0, 0);
        assert(diff_walk(a, b, i as int, j as int) =~= Seq::<(Seq<char>, Seq<char>)>::empty());
        assert(pairs_of(out@) + diff_walk(a, b, i as int, j as int) =~= pairs_of(out@));
    }
    out
}

/// The momentum strategy skeleton's source.
pub const MOMENTUM_TEMPLATE: &'static str = "from portfolio_lib.services.strategy.base import BaseStrategy\n\nclass MomentumTemplate(BaseStrategy):\n    def initialize(self):\n        self.lookback = 20\n\n    def generate_signals(self, data):\n        signals = {}\n        for symbol, df in data.items():\n            if len(df) > self.lookback:\n                recent = df['close'].iloc[-self.lookback:]\n                signals[symbol] = 1.0 if recent.iloc[-1] > recent.mean() else 0.0\n            else:\n                signals[symbol] = 0.0\n        return signals\n";

/// The mean-reversion strategy skeleton's source.
pub const MEAN_REVERSION_TEMPLATE: &'static str = "from portfolio_lib.services.strategy.base import BaseStrategy\n\nclass MeanReversionTemplate(BaseStrategy):\n    def initialize(self):\n        self.window = 10\n\n    def generate_signals(self, data):\n        signals = {}\n        for symbol, df in data.items():\n            if len(df) > self.window:\n                window_slice = df['close'].iloc[-self.window:]\n                price = window_slice.iloc[-1]\n                avg = window_slice.mean()\n                signals[symbol] = -1.0 if price > avg * 1.02 else (1.0 if price < avg * 0.98 else 0.0)\n            else:\n                signals[symbol] = 0.0\n        return signals\n";

/// The pair-trading strategy skeleton's source.
pub const PAIR_TRADING_TEMPLATE: &'static str = "from portfolio_lib.services.strategy.base import BaseStrategy\nimport numpy as np\n\nclass PairTradingTemplate(BaseStrategy):\n    def initialize(self):\n        self.spread_window = 30\n\n    def generate_signals(self, data):\n        if len(data) < 2:\n            return {s:0.0 for s in data}\n        symbols = list(data.keys())[:2]\n        a, b = symbols\n        da, db = data[a], data[b]\n        min_len = min(len(da), len(db))\n        if min_len < self.spread_window:\n            return {a:0.0, b:0.0}\n        spread_a = da['close'].iloc[-self.spread_window:]\n        spread_b = db['close'].iloc[-self.spread_window:]\n        ratio = spread_a.values / np.where(spread_b.values==0, 1, spread_b.values)\n        z = (ratio - ratio.mean()) / (ratio.std() + 1e-9)\n        last_z = z[-1]\n        if last_z > 1.5:\n            return {a: -1.0, b: 1.0}\n        elif last_z < -1.5:\n            return {a: 1.0, b: -1.0}\n        return {a:0.0, b:0.0}\n";

/// The bundled strategy skeletons, each a name and a source template
/// for the backend's strategy runner.
pub fn strategy_templates() -> (r: Vec<(&'static str, &'static str)>)
    ensures
        r@.len() == 3,
        r@[0].0@ == "Momentum Skeleton"@,
        r@[0].1 == MOMENTUM_TEMPLATE,
        r@[1].0@ == "Mean Reversion Skeleton"@,
        r@[1].1 == MEAN_REVERSION_TEMPLATE,
        r@[2].0@ == "Pair Trading Skeleton"@,
        r@[2].1 == PAIR_TRADING_TEMPLATE,
{
    let mut r: Vec<(&'static str, &'static str)> = Vec::new();
    r.push(("Momentum Skeleton", MOMENTUM_TEMPLATE));
    r.push(("Mean Reversion Skeleton", MEAN_REVERSION_TEMPLATE));
    r.push(("Pair Trading Skeleton", PAIR_TRADING_TEMPLATE));
    r
}

} // verus!
