use vstd::prelude::*;

verus! {

/// The byte that ends a line.
pub const LINE_FEED: u8 = 10;

/// A carriage return, stripped from the end of a line.
pub const CARRIAGE_RETURN: u8 = 13;

/// `b` holds no line feed.
pub open spec fn no_line_feed(b: Seq<u8>) -> bool {
    forall|i: int| 0 <= i < b.len() ==> b[i] != LINE_FEED
}

/// Index of the first line feed in `b`, or `b.len()` where there is none.
pub open spec fn first_line_feed(b: Seq<u8>) -> nat
    decreases b.len(),
{
    if b.len() == 0 {
        0
    } else if b[0] == LINE_FEED {
        0
    } else {
        1 + first_line_feed(b.drop_first())
    }
}

/// `s` without its trailing carriage returns and line feeds.
pub open spec fn strip_line_end(s: Seq<u8>) -> Seq<u8>
    decreases s.len(),
{
    if s.len() > 0 && (s.last() == CARRIAGE_RETURN || s.last() == LINE_FEED) {
        strip_line_end(s.drop_last())
    } else {
        s
    }
}

/// The complete lines of `b`, in order: each run of bytes up to and
/// including a line feed, with its line ending stripped; lines that are
/// empty after stripping are dropped.
pub open spec fn framed_lines(b: Seq<u8>) -> Seq<Seq<u8>>
    decreases b.len(),
{
    let k = first_line_feed(b) as int;
    if k < b.len() {
        let line = strip_line_end(b.take(k + 1));
        let rest = framed_lines(b.skip(k + 1));
        if line.len() > 0 {
            seq![line] + rest
        } else {
            rest
        }
    } else {
        seq![]
    }
}

/// What stays of `b` once its complete lines are taken: the bytes after its
/// last line feed (all of `b` where it has none).
pub open spec fn leftover(b: Seq<u8>) -> Seq<u8>
    decreases b.len(),
{
    let k = first_line_feed(b) as int;
    if k < b.len() {
        leftover(b.skip(k + 1))
    } else {
        b
    }
}

/// `first_line_feed` is the index of the first line feed.
pub proof fn lemma_first_line_feed(b: Seq<u8>, k: nat)
    requires
        k <= b.len(),
        forall|i: int| 0 <= i < k ==> b[i] != LINE_FEED,
        k == b.len() || b[k as int] == LINE_FEED,
    ensures
        first_line_feed(b) == k,
    decreases b.len(),
{
    if b.len() > 0 && k > 0 {
        assert forall|i: int| 0 <= i < k - 1 implies b.drop_first()[i] != LINE_FEED by {
            assert(b.drop_first()[i] == b[i + 1]);
        }
        lemma_first_line_feed(b.drop_first(), (k - 1) as nat);
    }
}

/// A buffer without a line feed holds no complete line and stays whole.
pub proof fn lemma_no_line_feed_frames_nothing(b: Seq<u8>)
    requires
        no_line_feed(b),
    ensures
        framed_lines(b) == Seq::<Seq<u8>>::empty(),
        leftover(b) == b,
{
    lemma_first_line_feed(b, b.len());
}

/// What is left after framing holds no line feed.
pub proof fn lemma_leftover_has_no_line_feed(b: Seq<u8>)
    ensures
        no_line_feed(leftover(b)),
    decreases b.len(),
{
    let k = first_line_feed(b) as int;
    if k < b.len() {
        lemma_leftover_has_no_line_feed(b.skip(k + 1));
    } else {
        assert forall|i: int| 0 <= i < b.len() implies b[i] != LINE_FEED by {
            lemma_first_line_feed_is_first(b, i);
        }
    }
}

/// Framing does not depend on how the bytes arrive: framing `x` and then
/// the leftover of `x` followed by `y` gives the same lines, in the same
/// order, and the same leftover as framing `x + y` at once.
pub proof fn lemma_framing_in_chunks(x: Seq<u8>, y: Seq<u8>)
    ensures
        framed_lines(x + y) == framed_lines(x) + framed_lines(leftover(x) + y),
        leftover(x + y) == leftover(leftover(x) + y),
    decreases x.len(),
{
    let k = first_line_feed(x) as int;
    if k < x.len() {
        assert forall|i: int| 0 <= i < k implies (x + y)[i] != LINE_FEED by {
            lemma_first_line_feed_is_first(x, i);
        }
        lemma_first_line_feed_found(x);
        lemma_first_line_feed(x + y, k as nat);
        assert((x + y).take(k + 1) =~= x.take(k + 1));
        assert((x + y).skip(k + 1) =~= x.skip(k + 1) + y);
        lemma_framing_in_chunks(x.skip(k + 1), y);
        assert(framed_lines(x + y) =~= framed_lines(x) + framed_lines(leftover(x) + y));
    } else {
        assert(framed_lines(x) + framed_lines(x + y) =~= framed_lines(x + y));
    }
}

/// Where `first_line_feed` is inside `b`, a line feed stands there.
proof fn lemma_first_line_feed_found(b: Seq<u8>)
    ensures
        first_line_feed(b) <= b.len(),
        first_line_feed(b) < b.len() ==> b[first_line_feed(b) as int] == LINE_FEED,
    decreases b.len(),
{
    if b.len() > 0 && b[0] != LINE_FEED {
        lemma_first_line_feed_found(b.drop_first());
    }
}

/// No line feed stands before `first_line_feed(b)`.
proof fn lemma_first_line_feed_is_first(b: Seq<u8>, i: int)
    requires
        0 <= i < b.len(),
        i < first_line_feed(b),
    ensures
        b[i] != LINE_FEED,
    decreases b.len(),
{
    if i > 0 {
        lemma_first_line_feed_is_first(b.drop_first(), i - 1);
    }
}

/// The byte sequences that the vectors of `v` hold.
pub open spec fn views_of(v: Seq<Vec<u8>>) -> Seq<Seq<u8>> {
    v.map_values(|l: Vec<u8>| l@)
}

/// The bytes `b[lo..hi]` in a vector of their own.
fn copy_range(b: &Vec<u8>, lo: usize, hi: usize) -> (r: Vec<u8>)
    requires
        lo <= hi <= b@.len(),
    ensures
        r@ == b@.subrange(lo as int, hi as int),
{
    let mut r: Vec<u8> = Vec::new();
    let mut i: usize = lo;
    while i < hi
        invariant
            lo <= i <= hi <= b@.len(),
            r@ == b@.subrange(lo as int, i as int),
        decreases hi - i,
    {
        r.push(b[i]);
        i = i + 1;
        assert(r@ =~= b@.subrange(lo as int, i as int));
    }
    r
}

/// Splits `buffer` into its complete lines, stripped of line endings and
/// without the empty ones, and the partial line that follows them.
pub fn split_lines(buffer: &Vec<u8>) -> (r: (Vec<Vec<u8>>, Vec<u8>))
    ensures
        views_of(r.0@) == framed_lines(buffer@),
        r.1@ == leftover(buffer@),
{
    let ghost b = buffer@;
    let len = buffer.len();
    let mut lines: Vec<Vec<u8>> = Vec::new();
    let mut start: usize = 0;
    assert(b.skip(0) =~= b);
    assert(views_of(lines@) + framed_lines(b) =~= framed_lines(b));
    loop
        invariant
            b == buffer@,
            len == b.len(),
            start <= len,
            framed_lines(b) == views_of(lines@) + framed_lines(b.skip(start as int)),
            leftover(b) == leftover(b.skip(start as int)),
        decreases len - start,
    {
        let ghost s = b.skip(start as int);
        let mut j: usize = start;
        while j < len && buffer[j] != LINE_FEED
            invariant
                start <= j <= len,
                len == b.len(),
                b == buffer@,
                forall|i: int| start <= i < j ==> b[i] != LINE_FEED,
            decreases len - j,
        {
            j = j + 1;
        }
        proof {
            lemma_first_line_feed(s, (j - start) as nat);
        }
        if j == len {
            assert(s =~= b.subrange(start as int, len as int));
            let rest = copy_range(buffer, start, len);
            assert(views_of(lines@) + framed_lines(s) =~= views_of(lines@));
            return (lines, rest);
        }
        let mut end: usize = j + 1;
        assert(s.take(j - start + 1) =~= b.subrange(start as int, end as int));
        while end > start && (buffer[end - 1] == CARRIAGE_RETURN || buffer[end - 1] == LINE_FEED)
            invariant
                start < j + 1 <= len,
                start <= end <= j + 1,
                b == buffer@,
                len == b.len(),
                strip_line_end(s.take(j - start + 1)) == strip_line_end(
                    b.subrange(start as int, end as int),
                ),
            decreases end,
        {
            assert(b.subrange(start as int, end as int).drop_last() =~= b.subrange(
                start as int,
                end - 1,
            ));
            end = end - 1;
        }
        let line = copy_range(buffer, start, end);
        assert(strip_line_end(s.take(j - start + 1)) == line@);
        assert(s.skip(j - start + 1) =~= b.skip(j + 1));
        let ghost before = views_of(lines@);
        if end > start {
            lines.push(line);
            assert(views_of(lines@) =~= before.push(line@));
            assert(before + framed_lines(s) =~= views_of(lines@) + framed_lines(b.skip(j + 1)));
        }
        start = j + 1;
    }
}

} // verus!
