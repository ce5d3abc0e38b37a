//! Text helpers: whitespace trimming, display truncation by user-perceived
//! characters, joining lines.
use unicode_segmentation::UnicodeSegmentation;
use vstd::prelude::*;
use vstd::string::StringExecFns;

verus! {

/// Unicode `White_Space`, the set that `char::is_whitespace` tests.
pub open spec fn is_ws(c: char) -> bool {
    let u = c as u32;
    (0x9 <= u <= 0xd) || u == 0x20 || u == 0x85 || u == 0xa0 || u == 0x1680 || (0x2000 <= u
        <= 0x200a) || u == 0x2028 || u == 0x2029 || u == 0x202f || u == 0x205f || u == 0x3000
}

pub open spec fn trim_start(s: Seq<char>) -> Seq<char>
    decreases s.len(),
{
    if s.len() > 0 && is_ws(s[0]) {
        trim_start(s.drop_first())
    } else {
        s
    }
}

pub open spec fn trim_end(s: Seq<char>) -> Seq<char>
    decreases s.len(),
{
    if s.len() > 0 && is_ws(s.last()) {
        trim_end(s.drop_last())
    } else {
        s
    }
}

/// `s` without its leading and trailing whitespace.
pub open spec fn trim(s: Seq<char>) -> Seq<char> {
    trim_end(trim_start(s))
}

/// Relies on `str::trim`, which removes leading and trailing `White_Space`.
#[verifier::external_body]
pub(crate) fn trim_str(s: &str) -> (r: &str)
    ensures
        r@ == trim(s@),
{
    s.trim()
}

/// The pieces of `gs` written one after another.
pub open spec fn concat(gs: Seq<Seq<char>>) -> Seq<char>
    decreases gs.len(),
{
    if gs.len() == 0 {
        Seq::empty()
    } else {
        concat(gs.drop_last()) + gs.last()
    }
}

/// `n` full stops.
pub open spec fn dots(n: nat) -> Seq<char> {
    Seq::new(n, |i: int| '.')
}

/// How many of the kept characters become full stops: three, or fewer where
/// fewer are kept.
pub open spec fn dot_count(len: nat) -> nat {
    if len < 3 { len } else { 3 }
}

/// A preview of the characters `gs` in at most `len` characters: all of them
/// when there are fewer than `len`; else the first `len`, of which the last
/// three are replaced by full stops.
pub open spec fn truncated(gs: Seq<Seq<char>>, len: nat) -> Seq<char> {
    if gs.len() < len {
        concat(gs)
    } else {
        concat(gs.take(len - dot_count(len))) + dots(dot_count(len))
    }
}

/// The extended grapheme clusters (user-perceived characters) of a text.
pub uninterp spec fn graphemes_of(s: Seq<char>) -> Seq<Seq<char>>;

pub open spec fn views(v: Seq<String>) -> Seq<Seq<char>> {
    v.map_values(|g: String| g@)
}

/// Relies on unicode-segmentation's `graphemes(true)`: the extended grapheme
/// clusters of `s`, in order.
#[verifier::external_body]
pub(crate) fn graphemes(s: &str) -> (r: Vec<String>)
    ensures
        views(r@) == graphemes_of(s@),
{
    s.graphemes(true).map(|g| g.to_string()).collect()
}

proof fn lemma_concat_take_step(gs: Seq<Seq<char>>, i: int)
    requires
        0 <= i < gs.len(),
    ensures
        concat(gs.take(i + 1)) == concat(gs.take(i)) + gs[i],
{
    assert(gs.take(i + 1).drop_last() =~= gs.take(i));
}

/// The clusters `clusters[..n]` written one after another.
fn concat_prefix(clusters: &Vec<String>, n: usize) -> (r: String)
    requires
        n <= clusters@.len(),
    ensures
        r@ == concat(views(clusters@).take(n as int)),
{
    let mut out = String::new();
    let mut i: usize = 0;
    while i < n
        invariant
            i <= n <= clusters@.len(),
            out@ == concat(views(clusters@).take(i as int)),
        decreases n - i,
    {
        proof {
            lemma_concat_take_step(views(clusters@), i as int);
        }
        out.append(clusters[i].as_str());
        i = i + 1;
    }
    proof {
        assert(views(clusters@).take(0) =~= Seq::<Seq<char>>::empty());
    }
    out
}

/// Shortens text given as its clusters to a preview of at most `len`
/// clusters, as `truncated` says.
pub fn truncate_clusters(clusters: &Vec<String>, len: usize) -> (r: String)
    ensures
        r@ == truncated(views(clusters@), len as nat),
{
    if clusters.len() < len {
        proof {
            assert(views(clusters@).take(clusters@.len() as int) =~= views(clusters@));
        }
        concat_prefix(clusters, clusters.len())
    } else {
        let k: usize = if len < 3 { len } else { 3 };
        let mut out = concat_prefix(clusters, len - k);
        let ghost head = out@;
        let mut j: usize = 0;
        while j < k
            invariant
                j <= k,
                out@ == head + dots(j as nat),
            decreases k - j,
        {
            proof {
                reveal_strlit(".");
            }
            out.append(".");
            assert(out@ =~= head + dots((j + 1) as nat));
            j = j + 1;
        }
        out
    }
}

/// A preview of `s` for display, counted in user-perceived characters: `s`
/// itself when it has fewer than `len` of them; else its first `len`, the
/// last three of which become `...`.
pub open spec fn preview(s: Seq<char>, len: nat) -> Seq<char> {
    if graphemes_of(s).len() < len {
        s
    } else {
        truncated(graphemes_of(s), len)
    }
}

/// Shortens `s` for display, as `preview` says.
pub fn truncate(s: &str, len: usize) -> (r: String)
    ensures
        r@ == preview(s@, len as nat),
{
    let clusters = graphemes(s);
    if clusters.len() < len {
        s.to_string()
    } else {
        truncate_clusters(&clusters, len)
    }
}

/// A text of fewer than `len` user-perceived characters is shown whole; one
/// of forty-one is shown as its first thirty-seven followed by `...`, forty in
/// all.
pub proof fn lemma_preview_boundary(s: Seq<char>, len: nat)
    ensures
        graphemes_of(s).len() < len ==> preview(s, len) == s,
        len >= 3 && graphemes_of(s).len() >= len ==> preview(s, len) == concat(
            graphemes_of(s).take(len - 3),
        ) + seq!['.', '.', '.'],
{
    assert(dots(3) =~= seq!['.', '.', '.']);
}

/// A text of fewer than `len` user-perceived characters comes back whole
/// from shortening, and again from shortening that.
pub proof fn lemma_preview_short_idempotent(s: Seq<char>, len: nat)
    requires
        graphemes_of(s).len() < len,
    ensures
        preview(preview(s, len), len) == preview(s, len),
{
}

/// Lines joined by a line break between each two.
pub open spec fn join_lines(ls: Seq<Seq<char>>) -> Seq<char>
    decreases ls.len(),
{
    if ls.len() == 0 {
        Seq::empty()
    } else if ls.len() == 1 {
        ls[0]
    } else {
        join_lines(ls.drop_last()) + seq!['\n'] + ls.last()
    }
}

proof fn lemma_join_step(ls: Seq<Seq<char>>, i: int)
    requires
        0 <= i < ls.len(),
    ensures
        i == 0 ==> join_lines(ls.take(i + 1)) == ls[i],
        i > 0 ==> join_lines(ls.take(i + 1)) == join_lines(ls.take(i)) + seq!['\n'] + ls[i],
{
    assert(ls.take(i + 1).drop_last() =~= ls.take(i));
}

/// Appends `line` to the lines in `out`, with a line break before it unless
/// `out` holds none yet.
pub(crate) fn push_line(out: &mut String, line: &str, Ghost(ls): Ghost<Seq<Seq<char>>>, i: usize)
    requires
        i < ls.len(),
        ls[i as int] == line@,
        old(out)@ == join_lines(ls.take(i as int)),
    ensures
        final(out)@ == join_lines(ls.take(i + 1)),
{
    proof {
        lemma_join_step(ls, i as int);
        reveal_strlit("\n");
    }
    if i > 0 {
        out.append("\n");
    }
    out.append(line);
    proof {
        if i == 0 {
            assert(ls.take(0) =~= Seq::<Seq<char>>::empty());
            assert(final(out)@ =~= line@);
        }
    }
}

/// Relies on `format!("{:04}", n)`: the decimal digits of `n`, led by zeros
/// to four characters.
#[verifier::external_body]
pub(crate) fn zero_padded4(n: usize) -> (r: String)
    ensures
        r@ == padded_decimal(n as nat, 4),
{
    format!("{:04}", n)
}

/// The decimal digits of `n`, without leading zeros (`0` for zero).
pub open spec fn decimal(n: nat) -> Seq<char>
    decreases n,
{
    if n < 10 {
        seq![crate::timestamp::digit_char(n as int)]
    } else {
        decimal(n / 10) + seq![crate::timestamp::digit_char((n % 10) as int)]
    }
}

/// The decimal digits of `n`, led by zeros to at least `w` characters.
pub open spec fn padded_decimal(n: nat, w: nat) -> Seq<char> {
    let d = decimal(n);
    if d.len() < w {
        Seq::new((w - d.len()) as nat, |i: int| '0') + d
    } else {
        d
    }
}

} // verus!
