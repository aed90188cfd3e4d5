//! The audio streaming pipeline: its `gst-launch` description built from the streaming
//! configuration (key/value pairs, each key read from its first pair), the Icecast
//! endpoint it may publish to, and the argument list the description is launched with.

use vstd::prelude::*;
use crate::text::{chars_of, string_from_chars, push_str, str_eq, split_words, words, views, parse_int, parse_int_spec, lemma_parse_int_range};

verus! {

/// The value of the first pair with key `k`.
pub open spec fn config_get(c: Seq<(String, String)>, k: Seq<char>) -> Option<Seq<char>>
    decreases c.len(),
{
    if c.len() == 0 {
        None
    } else if c[0].0@ == k {
        Some(c[0].1@)
    } else {
        config_get(c.drop_first(), k)
    }
}

/// The value under `k`, or `d`.
pub open spec fn config_or(c: Seq<(String, String)>, k: Seq<char>, d: Seq<char>) -> Seq<char> {
    match config_get(c, k) { Some(v) => v, None => d }
}

fn lookup<'a>(c: &'a Vec<(String, String)>, k: &str) -> (r: Option<&'a String>)
    ensures
        match r {
            Some(v) => config_get(c@, k@) == Some(v@),
            None => config_get(c@, k@) is None,
        },
{
    let mut i: usize = 0;
    assert(c@.skip(0) =~= c@);
    while i < c.len()
        invariant
            i <= c@.len(),
            config_get(c@, k@) == config_get(c@.skip(i as int), k@),
        decreases c@.len() - i,
    {
        assert(c@.skip(i as int)[0] == c@[i as int]);
        assert(c@.skip(i as int).drop_first() =~= c@.skip(i + 1));
        if str_eq(c[i].0.as_str(), k) {
            return Some(&c[i].1);
        }
        i = i + 1;
    }
    assert(c@.skip(i as int).len() == 0);
    None
}

fn append_value(out: &mut Vec<char>, c: &Vec<(String, String)>, k: &str, d: &str)
    ensures
        final(out)@ == old(out)@ + config_or(c@, k@, d@),
{
    match lookup(c, k) {
        Some(v) => push_str(out, v.as_str()),
        None => push_str(out, d),
    }
}

/// The mount point with a leading '/'.
pub open spec fn normalized_mount(m: Seq<char>) -> Seq<char> {
    if m.len() > 0 && m[0] == '/' { m } else { seq!['/'] + m }
}

/// The sink properties present in the configuration, in order: host, port, password,
/// mount, stream name, sync.
pub open spec fn sink_props(c: Seq<(String, String)>) -> Seq<Seq<char>> {
    let p1: Seq<Seq<char>> = match config_get(c, "ICECAST_HOST"@) { Some(v) => seq!["ip="@ + v], None => Seq::empty() };
    let p2: Seq<Seq<char>> = match config_get(c, "ICECAST_PORT"@) { Some(v) => seq!["port="@ + v], None => Seq::empty() };
    let p3: Seq<Seq<char>> = match config_get(c, "ICECAST_PASSWORD"@) { Some(v) => seq!["password="@ + v], None => Seq::empty() };
    let p4: Seq<Seq<char>> = match config_get(c, "ICECAST_MOUNT"@) { Some(v) => seq!["mount="@ + normalized_mount(v)], None => Seq::empty() };
    let p5: Seq<Seq<char>> = match config_get(c, "GSTREAMER_STREAM_NAME"@) { Some(v) => seq!["streamname="@ + v], None => Seq::empty() };
    let p6: Seq<Seq<char>> = match config_get(c, "SHOUT2SEND_SYNC"@) { Some(v) => seq!["sync="@ + v], None => Seq::empty() };
    p1 + p2 + p3 + p4 + p5 + p6
}

/// Pieces joined with single spaces.
pub open spec fn space_joined(ps: Seq<Seq<char>>) -> Seq<char>
    decreases ps.len(),
{
    if ps.len() == 0 {
        Seq::empty()
    } else if ps.len() == 1 {
        ps[0]
    } else {
        space_joined(ps.drop_last()) + seq![' '] + ps.last()
    }
}

/// The source, the first (leaky) queue and the converter.
pub open spec fn first_segment(c: Seq<(String, String)>) -> Seq<char> {
    config_or(c, "GSTREAMER_AUDIO_SRC"@, Seq::empty())
        + " ! queue max-size-buffers="@ + config_or(c, "GST_QUEUE_BUFFERS"@, "50"@)
        + " max-size-time="@ + config_or(c, "GST_QUEUE_TIME"@, "0"@)
        + " max-size-bytes="@ + config_or(c, "GST_QUEUE_BYTES"@, "0"@)
        + " leaky=2 ! "@ + config_or(c, "GSTREAMER_CONVERT"@, Seq::empty())
}

/// The second queue, present only when `GST_SECOND_QUEUE_ENABLE` is exactly `true`.
pub open spec fn second_segment(c: Seq<(String, String)>) -> Seq<char> {
    if config_get(c, "GST_SECOND_QUEUE_ENABLE"@) == Some("true"@) {
        " ! queue max-size-buffers="@ + config_or(c, "GST_SECOND_QUEUE_BUFFERS"@, "50"@)
            + " max-size-time="@ + config_or(c, "GST_SECOND_QUEUE_TIME"@, "0"@)
            + " max-size-bytes="@ + config_or(c, "GST_SECOND_QUEUE_BYTES"@, "0"@)
            + " leaky=2"@
    } else {
        Seq::empty()
    }
}

/// Everything before the sink: both queues and the encoder.
pub open spec fn stem(c: Seq<(String, String)>) -> Seq<char> {
    first_segment(c) + second_segment(c) + " ! "@ + config_or(c, "GSTREAMER_ENCODER"@, Seq::empty())
}

/// The sink: the Icecast sink with its properties, or a fake sink.
pub open spec fn sink_segment(c: Seq<(String, String)>, use_icecast: bool) -> Seq<char> {
    if use_icecast {
        " ! "@ + config_or(c, "GSTREAMER_SINK"@, Seq::empty()) + " "@ + space_joined(sink_props(c))
    } else {
        " ! fakesink"@
    }
}

/// The pipeline description.
pub open spec fn pipeline_text(c: Seq<(String, String)>, use_icecast: bool) -> Seq<char> {
    stem(c) + sink_segment(c, use_icecast)
}

/// `t` occurs in `s` starting at position `i`.
pub open spec fn occurs_at(s: Seq<char>, t: Seq<char>, i: int) -> bool {
    0 <= i && i + t.len() <= s.len() && s.subrange(i, i + t.len()) == t
}

/// `t` occurs somewhere in `s`.
pub open spec fn contains_text(s: Seq<char>, t: Seq<char>) -> bool {
    exists|i: int| occurs_at(s, t, i)
}

proof fn lemma_occurs_left(a: Seq<char>, b: Seq<char>, t: Seq<char>, i: int)
    requires
        occurs_at(a, t, i),
    ensures
        occurs_at(a + b, t, i),
{
    assert((a + b).subrange(i, i + t.len()) =~= a.subrange(i, i + t.len()));
}

proof fn lemma_occurs_right(a: Seq<char>, b: Seq<char>, t: Seq<char>, i: int)
    requires
        occurs_at(b, t, i),
    ensures
        occurs_at(a + b, t, a.len() + i),
{
    assert((a + b).subrange(a.len() + i, a.len() + i + t.len()) =~= b.subrange(i, i + t.len()));
}

/// A text shorter than `t` does not hold it.
proof fn lemma_short_lacks(s: Seq<char>, t: Seq<char>)
    requires
        s.len() < t.len(),
    ensures
        !contains_text(s, t),
{
    assert forall|i: int| !occurs_at(s, t, i) by {}
}

/// Neither half holds `t`, and no occurrence can straddle the seam: the character on one
/// side of it is not in `t`.
proof fn lemma_join_lacks(a: Seq<char>, b: Seq<char>, t: Seq<char>)
    requires
        t.len() > 0,
        !contains_text(a, t),
        !contains_text(b, t),
        a.len() == 0 || b.len() == 0 || !t.contains(a.last()) || !t.contains(b[0]),
    ensures
        !contains_text(a + b, t),
{
    assert forall|i: int| !occurs_at(a + b, t, i) by {
        if occurs_at(a + b, t, i) {
            if i + t.len() <= a.len() {
                assert((a + b).subrange(i, i + t.len()) =~= a.subrange(i, i + t.len()));
                assert(occurs_at(a, t, i));
            } else if i >= a.len() {
                assert((a + b).subrange(i, i + t.len()) =~= b.subrange(i - a.len(), i - a.len() + t.len()));
                assert(occurs_at(b, t, i - a.len()));
            } else {
                let w = (a + b).subrange(i, i + t.len());
                assert(w[a.len() - 1 - i] == a.last());
                assert(w[a.len() - i] == b[0]);
                assert(t[a.len() - 1 - i] == a.last());
                assert(t[a.len() - i] == b[0]);
            }
        }
    }
}

/// A word that no fixed piece of the description can hold or help form: ten characters or
/// more, with no space, `=` or `-` (such as `shout2send`).
pub open spec fn plain_word(t: Seq<char>) -> bool {
    &&& t.len() >= 10
    &&& !t.contains(' ')
    &&& !t.contains('=')
    &&& !t.contains('-')
}

/// No value of the configuration, but perhaps the sink's, holds `t`.
pub open spec fn values_lack(c: Seq<(String, String)>, t: Seq<char>) -> bool {
    forall|k: Seq<char>| k != "GSTREAMER_SINK"@ && #[trigger] config_get(c, k) is Some
        ==> !contains_text(config_get(c, k)->0, t)
}

proof fn lemma_value_lacks(c: Seq<(String, String)>, k: Seq<char>, d: Seq<char>, t: Seq<char>)
    requires
        values_lack(c, t),
        k != "GSTREAMER_SINK"@,
        d.len() < t.len(),
    ensures
        !contains_text(config_or(c, k, d), t),
{
    if config_get(c, k) is None {
        lemma_short_lacks(d, t);
    }
}

/// The fixed pieces of the description do not hold a plain word.
proof fn lemma_pieces_lack(t: Seq<char>)
    requires
        plain_word(t),
    ensures
        !contains_text(" ! queue max-size-buffers="@, t),
        !contains_text(" max-size-time="@, t),
        !contains_text(" max-size-bytes="@, t),
        !contains_text(" leaky=2 ! "@, t),
        !contains_text(" leaky=2"@, t),
        !contains_text(" ! "@, t),
        !contains_text(" ! fakesink"@, t),
{
    reveal_strlit(" ! queue max-size-buffers=");
    reveal_strlit(" max-size-time=");
    reveal_strlit(" max-size-bytes=");
    reveal_strlit(" leaky=2 ! ");
    reveal_strlit(" leaky=2");
    reveal_strlit(" ! ");
    reveal_strlit(" ! fakesink");
    let q = seq![' ', '!', ' ', 'q', 'u', 'e', 'u', 'e', ' '];
    let m = seq!['m', 'a', 'x', '-', 's', 'i', 'z', 'e', '-'];
    let sp = seq![' '];
    let buffers = seq!['b', 'u', 'f', 'f', 'e', 'r', 's', '='];
    let time = seq!['t', 'i', 'm', 'e', '='];
    let bytes = seq!['b', 'y', 't', 'e', 's', '='];
    let fake = seq!['f', 'a', 'k', 'e', 's', 'i', 'n', 'k'];
    lemma_short_lacks(q, t);
    lemma_short_lacks(m, t);
    lemma_short_lacks(sp, t);
    lemma_short_lacks(buffers, t);
    lemma_short_lacks(time, t);
    lemma_short_lacks(bytes, t);
    lemma_short_lacks(fake, t);
    lemma_short_lacks(" leaky=2"@, t);
    lemma_short_lacks(" ! "@, t);
    lemma_join_lacks(q, m, t);
    lemma_join_lacks(q + m, buffers, t);
    assert(" ! queue max-size-buffers="@ =~= q + m + buffers);
    lemma_join_lacks(sp, m, t);
    lemma_join_lacks(sp + m, time, t);
    assert(" max-size-time="@ =~= sp + m + time);
    lemma_join_lacks(sp + m, bytes, t);
    assert(" max-size-bytes="@ =~= sp + m + bytes);
    lemma_join_lacks(" leaky=2"@, " ! "@, t);
    assert(" leaky=2 ! "@ =~= " leaky=2"@ + " ! "@);
    lemma_join_lacks(" ! "@, fake, t);
    assert(" ! fakesink"@ =~= " ! "@ + fake);
}

/// A description's parts before the sink do not hold a plain word that no value holds.
proof fn lemma_stem_lacks(c: Seq<(String, String)>, t: Seq<char>)
    requires
        plain_word(t),
        values_lack(c, t),
    ensures
        !contains_text(stem(c), t),
{
    reveal_strlit("GSTREAMER_SINK");
    reveal_strlit("GSTREAMER_AUDIO_SRC");
    reveal_strlit("GST_QUEUE_BUFFERS");
    reveal_strlit("GST_QUEUE_TIME");
    reveal_strlit("GST_QUEUE_BYTES");
    reveal_strlit("GSTREAMER_CONVERT");
    reveal_strlit("GSTREAMER_ENCODER");
    reveal_strlit("GST_SECOND_QUEUE_BUFFERS");
    reveal_strlit("GST_SECOND_QUEUE_TIME");
    reveal_strlit("GST_SECOND_QUEUE_BYTES");
    reveal_strlit("50");
    reveal_strlit("0");
    reveal_strlit(" ! queue max-size-buffers=");
    reveal_strlit(" max-size-time=");
    reveal_strlit(" max-size-bytes=");
    reveal_strlit(" leaky=2 ! ");
    reveal_strlit(" leaky=2");
    reveal_strlit(" ! ");
    assert("GSTREAMER_SINK"@.len() == 14 && "GST_QUEUE_TIME"@.len() == 14);
    assert("GSTREAMER_SINK"@[3] != "GST_QUEUE_TIME"@[3]);
    assert("GSTREAMER_AUDIO_SRC"@.len() == 19 && "GST_QUEUE_BUFFERS"@.len() == 17 && "GST_QUEUE_BYTES"@.len() == 15);
    assert("GSTREAMER_CONVERT"@.len() == 17 && "GSTREAMER_ENCODER"@.len() == 17);
    assert("GST_SECOND_QUEUE_BUFFERS"@.len() == 24 && "GST_SECOND_QUEUE_TIME"@.len() == 21 && "GST_SECOND_QUEUE_BYTES"@.len() == 22);
    lemma_pieces_lack(t);
    let e = Seq::<char>::empty();
    let src = config_or(c, "GSTREAMER_AUDIO_SRC"@, e);
    let qb = config_or(c, "GST_QUEUE_BUFFERS"@, "50"@);
    let qt = config_or(c, "GST_QUEUE_TIME"@, "0"@);
    let qy = config_or(c, "GST_QUEUE_BYTES"@, "0"@);
    let conv = config_or(c, "GSTREAMER_CONVERT"@, e);
    let enc = config_or(c, "GSTREAMER_ENCODER"@, e);
    lemma_value_lacks(c, "GSTREAMER_AUDIO_SRC"@, e, t);
    lemma_value_lacks(c, "GST_QUEUE_BUFFERS"@, "50"@, t);
    lemma_value_lacks(c, "GST_QUEUE_TIME"@, "0"@, t);
    lemma_value_lacks(c, "GST_QUEUE_BYTES"@, "0"@, t);
    lemma_value_lacks(c, "GSTREAMER_CONVERT"@, e, t);
    lemma_value_lacks(c, "GSTREAMER_ENCODER"@, e, t);
    let lq = " ! queue max-size-buffers="@;
    let lt = " max-size-time="@;
    let ly = " max-size-bytes="@;
    let ll = " leaky=2 ! "@;
    let a1 = src + lq;
    lemma_join_lacks(src, lq, t);
    let a2 = a1 + qb;
    assert(a1.last() == '=');
    lemma_join_lacks(a1, qb, t);
    let a3 = a2 + lt;
    lemma_join_lacks(a2, lt, t);
    let a4 = a3 + qt;
    assert(a3.last() == '=');
    lemma_join_lacks(a3, qt, t);
    let a5 = a4 + ly;
    lemma_join_lacks(a4, ly, t);
    let a6 = a5 + qy;
    assert(a5.last() == '=');
    lemma_join_lacks(a5, qy, t);
    let a7 = a6 + ll;
    lemma_join_lacks(a6, ll, t);
    assert(a7.last() == ' ');
    lemma_join_lacks(a7, conv, t);
    let f = first_segment(c);
    assert(f == a7 + conv);
    let s2 = second_segment(c);
    if config_get(c, "GST_SECOND_QUEUE_ENABLE"@) == Some("true"@) {
        let b2 = config_or(c, "GST_SECOND_QUEUE_BUFFERS"@, "50"@);
        let t2 = config_or(c, "GST_SECOND_QUEUE_TIME"@, "0"@);
        let y2 = config_or(c, "GST_SECOND_QUEUE_BYTES"@, "0"@);
        lemma_value_lacks(c, "GST_SECOND_QUEUE_BUFFERS"@, "50"@, t);
        lemma_value_lacks(c, "GST_SECOND_QUEUE_TIME"@, "0"@, t);
        lemma_value_lacks(c, "GST_SECOND_QUEUE_BYTES"@, "0"@, t);
        let c1 = lq + b2;
        assert(lq.last() == '=');
        lemma_join_lacks(lq, b2, t);
        let c2 = c1 + lt;
        lemma_join_lacks(c1, lt, t);
        let c3 = c2 + t2;
        assert(c2.last() == '=');
        lemma_join_lacks(c2, t2, t);
        let c4 = c3 + ly;
        lemma_join_lacks(c3, ly, t);
        let c5 = c4 + y2;
        assert(c4.last() == '=');
        lemma_join_lacks(c4, y2, t);
        lemma_join_lacks(c5, " leaky=2"@, t);
        assert(s2 == c5 + " leaky=2"@);
        assert(s2[0] == ' ');
    } else {
        assert(s2.len() == 0);
    }
    lemma_join_lacks(f, s2, t);
    lemma_join_lacks(f + s2, " ! "@, t);
    assert((f + s2 + " ! "@).last() == ' ');
    lemma_join_lacks(f + s2 + " ! "@, enc, t);
}

/// What the built description holds, as the pipeline test checks it. With Icecast: the
/// sink's name, `queue` (twice when the second queue is enabled with exactly `true`),
/// `ip=` and the host, `mount=` and the mount point with a leading '/'. Without Icecast:
/// ` ! fakesink`, and not the sink's name when no other value holds it.
pub proof fn lemma_pipeline_building(c: Seq<(String, String)>, t: Seq<char>)
    requires
        config_get(c, "GSTREAMER_SINK"@) == Some(t),
        plain_word(t),
        values_lack(c, t),
    ensures
        contains_text(pipeline_text(c, true), t),
        contains_text(pipeline_text(c, true), "queue"@),
        config_get(c, "GST_SECOND_QUEUE_ENABLE"@) == Some("true"@) ==> exists|i: int, j: int|
            i < j && occurs_at(pipeline_text(c, true), "queue"@, i) && occurs_at(pipeline_text(c, true), "queue"@, j),
        config_get(c, "ICECAST_HOST"@) is Some
            ==> contains_text(pipeline_text(c, true), "ip="@ + config_get(c, "ICECAST_HOST"@)->0),
        config_get(c, "ICECAST_MOUNT"@) is Some
            ==> contains_text(pipeline_text(c, true), "mount="@ + normalized_mount(config_get(c, "ICECAST_MOUNT"@)->0)),
        contains_text(pipeline_text(c, false), " ! fakesink"@),
        !contains_text(pipeline_text(c, false), t),
{
    lemma_queue_positions(c, true);
    lemma_sink_text(c, true);
    lemma_sink_text(c, false);
    let st = stem(c);
    let bang = " ! "@;
    assert(t.subrange(0, t.len() as int) =~= t);
    lemma_occurs_right(bang, t, t, 0);
    lemma_occurs_left(bang + t, " "@, t, bang.len() as int);
    lemma_occurs_left(bang + t + " "@, space_joined(sink_props(c)), t, bang.len() as int);
    assert(sink_segment(c, true) == bang + t + " "@ + space_joined(sink_props(c)));
    lemma_occurs_right(st, sink_segment(c, true), t, bang.len() as int);
    let src_len = config_or(c, "GSTREAMER_AUDIO_SRC"@, Seq::empty()).len() as int;
    assert(occurs_at(pipeline_text(c, true), "queue"@, src_len + 3));
    if config_get(c, "GST_SECOND_QUEUE_ENABLE"@) == Some("true"@) {
        let j = first_segment(c).len() as int + 3;
        assert(occurs_at(pipeline_text(c, true), "queue"@, j));
    }
    assert(occurs_at(pipeline_text(c, false), " ! fakesink"@, st.len() as int));
    lemma_stem_lacks(c, t);
    lemma_pieces_lack(t);
    reveal_strlit(" ! fakesink");
    lemma_join_lacks(st, " ! fakesink"@, t);
}

/// Each piece occurs in the pieces joined with spaces.
proof fn lemma_joined_contains(ps: Seq<Seq<char>>, j: int)
    requires
        0 <= j < ps.len(),
    ensures
        contains_text(space_joined(ps), ps[j]),
    decreases ps.len(),
{
    if ps.len() == 1 {
        assert(ps[j].subrange(0, ps[j].len() as int) =~= ps[j]);
        assert(occurs_at(space_joined(ps), ps[j], 0));
    } else {
        let front = space_joined(ps.drop_last()) + seq![' '];
        if j == ps.len() - 1 {
            assert(occurs_at(ps.last(), ps[j], 0)) by {
                assert(ps.last().subrange(0, ps.last().len() as int) =~= ps.last());
            }
            lemma_occurs_right(front, ps.last(), ps[j], 0);
        } else {
            lemma_joined_contains(ps.drop_last(), j);
            let i = choose|i: int| occurs_at(space_joined(ps.drop_last()), ps.drop_last()[j], i);
            lemma_occurs_left(space_joined(ps.drop_last()), seq![' '], ps[j], i);
            lemma_occurs_left(front, ps.last(), ps[j], i);
        }
    }
}

/// Pieces joined with spaces end with the last piece.
proof fn lemma_joined_ends(ps: Seq<Seq<char>>)
    requires
        ps.len() > 0,
    ensures
        space_joined(ps).len() >= ps.last().len(),
        occurs_at(space_joined(ps), ps.last(), space_joined(ps).len() - ps.last().len()),
    decreases ps.len(),
{
    let l = ps.last();
    assert(l.subrange(0, l.len() as int) =~= l);
    if ps.len() == 1 {
        assert(space_joined(ps) == ps[0]);
    } else {
        let front = space_joined(ps.drop_last()) + seq![' '];
        lemma_occurs_right(front, l, l, 0);
    }
}

/// Two neighbouring pieces occur side by side, one space apart, in the pieces joined
/// with spaces.
proof fn lemma_joined_adjacent(ps: Seq<Seq<char>>, j: int)
    requires
        0 <= j,
        j + 1 < ps.len(),
    ensures
        contains_text(space_joined(ps), ps[j] + seq![' '] + ps[j + 1]),
    decreases ps.len(),
{
    let w = ps[j] + seq![' '] + ps[j + 1];
    let front = space_joined(ps.drop_last());
    if j + 1 == ps.len() - 1 {
        let d = ps.drop_last();
        lemma_joined_ends(d);
        assert(d.last() == ps[j]);
        let p = front.len() - ps[j].len();
        let whole = front + seq![' '] + ps.last();
        assert(whole.subrange(p, p + w.len()) =~= w) by {
            assert(front.subrange(p, front.len() as int) =~= ps[j]);
        }
        assert(occurs_at(whole, w, p));
    } else {
        lemma_joined_adjacent(ps.drop_last(), j);
        assert(ps.drop_last()[j] + seq![' '] + ps.drop_last()[j + 1] == w);
        let i = choose|i: int| #[trigger] occurs_at(front, w, i);
        lemma_occurs_left(front, seq![' '], w, i);
        lemma_occurs_left(front + seq![' '], ps.last(), w, i);
    }
}

/// With Icecast, the sink's properties are all in the description and in their order:
/// `ip=` host, `port=` port, `password=` password, `mount=` mount point (with a leading
/// '/'), `streamname=` name and `sync=` flag, each present when its key is set; the
/// password stands right after the port and right before the mount point when those are set.
/// The index of each of the sink's properties among them: ip, port, password, mount,
/// stream name and sync, in that order, each present when its key is set.
proof fn lemma_prop_indices(c: Seq<(String, String)>)
    ensures
        ({
            let ps = sink_props(c);
            let host = config_get(c, "ICECAST_HOST"@);
            let port = config_get(c, "ICECAST_PORT"@);
            let pw = config_get(c, "ICECAST_PASSWORD"@);
            let mount = config_get(c, "ICECAST_MOUNT"@);
            let name = config_get(c, "GSTREAMER_STREAM_NAME"@);
            let sync = config_get(c, "SHOUT2SEND_SYNC"@);
            let j2: int = if host is Some { 1 } else { 0 };
            let j3: int = j2 + if port is Some { 1int } else { 0 };
            let j4: int = j3 + if pw is Some { 1int } else { 0 };
            let j5: int = j4 + if mount is Some { 1int } else { 0 };
            let j6: int = j5 + if name is Some { 1int } else { 0 };
            &&& host is Some ==> 0 < ps.len() && ps[0] == "ip="@ + host->0
            &&& port is Some ==> j2 < ps.len() && ps[j2] == "port="@ + port->0
            &&& pw is Some ==> j3 < ps.len() && ps[j3] == "password="@ + pw->0
            &&& mount is Some ==> j4 < ps.len() && ps[j4] == "mount="@ + normalized_mount(mount->0)
            &&& name is Some ==> j5 < ps.len() && ps[j5] == "streamname="@ + name->0
            &&& sync is Some ==> j6 < ps.len() && ps[j6] == "sync="@ + sync->0
        }),
{
}

/// With Icecast, the sink's properties are all in the description: `ip=` host, `port=`
/// port, `password=` password, `mount=` mount point (with a leading '/'), `streamname=`
/// name and `sync=` flag, each present when its key is set.
pub proof fn lemma_icecast_properties(c: Seq<(String, String)>)
    ensures
        config_get(c, "ICECAST_HOST"@) is Some
            ==> contains_text(pipeline_text(c, true), "ip="@ + config_get(c, "ICECAST_HOST"@)->0),
        config_get(c, "ICECAST_PORT"@) is Some
            ==> contains_text(pipeline_text(c, true), "port="@ + config_get(c, "ICECAST_PORT"@)->0),
        config_get(c, "ICECAST_PASSWORD"@) is Some
            ==> contains_text(pipeline_text(c, true), "password="@ + config_get(c, "ICECAST_PASSWORD"@)->0),
        config_get(c, "ICECAST_MOUNT"@) is Some
            ==> contains_text(pipeline_text(c, true), "mount="@ + normalized_mount(config_get(c, "ICECAST_MOUNT"@)->0)),
        config_get(c, "GSTREAMER_STREAM_NAME"@) is Some
            ==> contains_text(pipeline_text(c, true), "streamname="@ + config_get(c, "GSTREAMER_STREAM_NAME"@)->0),
        config_get(c, "SHOUT2SEND_SYNC"@) is Some
            ==> contains_text(pipeline_text(c, true), "sync="@ + config_get(c, "SHOUT2SEND_SYNC"@)->0),
{
    lemma_prop_indices(c);
    let host = config_get(c, "ICECAST_HOST"@);
    let port = config_get(c, "ICECAST_PORT"@);
    let pw = config_get(c, "ICECAST_PASSWORD"@);
    let mount = config_get(c, "ICECAST_MOUNT"@);
    let name = config_get(c, "GSTREAMER_STREAM_NAME"@);
    let j2: int = if host is Some { 1 } else { 0 };
    let j3: int = j2 + if port is Some { 1int } else { 0 };
    let j4: int = j3 + if pw is Some { 1int } else { 0 };
    let j5: int = j4 + if mount is Some { 1int } else { 0 };
    let j6: int = j5 + if name is Some { 1int } else { 0 };
    if host is Some { lemma_prop_in_text(c, 0); }
    if port is Some { lemma_prop_in_text(c, j2); }
    if pw is Some { lemma_prop_in_text(c, j3); }
    if mount is Some { lemma_prop_in_text(c, j4); }
    if name is Some { lemma_prop_in_text(c, j5); }
    if config_get(c, "SHOUT2SEND_SYNC"@) is Some { lemma_prop_in_text(c, j6); }
}

/// With Icecast, the password stands right after the port and right before the mount
/// point, one space apart, when those are set.
pub proof fn lemma_icecast_password_place(c: Seq<(String, String)>)
    ensures
        (config_get(c, "ICECAST_PORT"@) is Some && config_get(c, "ICECAST_PASSWORD"@) is Some)
            ==> contains_text(pipeline_text(c, true),
                "port="@ + config_get(c, "ICECAST_PORT"@)->0 + seq![' '] + "password="@ + config_get(c, "ICECAST_PASSWORD"@)->0),
        (config_get(c, "ICECAST_PASSWORD"@) is Some && config_get(c, "ICECAST_MOUNT"@) is Some)
            ==> contains_text(pipeline_text(c, true),
                "password="@ + config_get(c, "ICECAST_PASSWORD"@)->0 + seq![' '] + "mount="@ + normalized_mount(config_get(c, "ICECAST_MOUNT"@)->0)),
{
    lemma_prop_indices(c);
    let ps = sink_props(c);
    let host = config_get(c, "ICECAST_HOST"@);
    let port = config_get(c, "ICECAST_PORT"@);
    let pw = config_get(c, "ICECAST_PASSWORD"@);
    let mount = config_get(c, "ICECAST_MOUNT"@);
    let j2: int = if host is Some { 1 } else { 0 };
    let j3: int = j2 + if port is Some { 1int } else { 0 };
    if port is Some && pw is Some {
        lemma_adjacent_in_text(c, j2);
        assert(ps[j2] + seq![' '] + ps[j2 + 1] =~= "port="@ + port->0 + seq![' '] + "password="@ + pw->0);
    }
    if pw is Some && mount is Some {
        lemma_adjacent_in_text(c, j3);
        assert(ps[j3] + seq![' '] + ps[j3 + 1] =~= "password="@ + pw->0 + seq![' '] + "mount="@ + normalized_mount(mount->0));
    }
}

proof fn lemma_prop_in_text(c: Seq<(String, String)>, j: int)
    requires
        0 <= j < sink_props(c).len(),
    ensures
        contains_text(pipeline_text(c, true), sink_props(c)[j]),
{
    let ps = sink_props(c);
    let front = stem(c) + (" ! "@ + config_or(c, "GSTREAMER_SINK"@, Seq::empty())) + " "@;
    assert(pipeline_text(c, true) =~= front + space_joined(ps));
    lemma_joined_contains(ps, j);
    let i = choose|i: int| #[trigger] occurs_at(space_joined(ps), ps[j], i);
    lemma_occurs_right(front, space_joined(ps), ps[j], i);
}

proof fn lemma_adjacent_in_text(c: Seq<(String, String)>, j: int)
    requires
        0 <= j,
        j + 1 < sink_props(c).len(),
    ensures
        contains_text(pipeline_text(c, true), sink_props(c)[j] + seq![' '] + sink_props(c)[j + 1]),
{
    let ps = sink_props(c);
    let front = stem(c) + (" ! "@ + config_or(c, "GSTREAMER_SINK"@, Seq::empty())) + " "@;
    assert(pipeline_text(c, true) =~= front + space_joined(ps));
    lemma_joined_adjacent(ps, j);
    let w = ps[j] + seq![' '] + ps[j + 1];
    let i = choose|i: int| #[trigger] occurs_at(space_joined(ps), w, i);
    lemma_occurs_right(front, space_joined(ps), w, i);
}

/// Where the queues stand: `queue` follows the source after ` ! `, and, when the second
/// queue is enabled with exactly `true`, occurs again after the converter.
pub proof fn lemma_queue_positions(c: Seq<(String, String)>, use_icecast: bool)
    ensures
        occurs_at(pipeline_text(c, use_icecast), "queue"@, config_or(c, "GSTREAMER_AUDIO_SRC"@, Seq::empty()).len() as int + 3),
        config_get(c, "GST_SECOND_QUEUE_ENABLE"@) == Some("true"@) ==> {
            &&& occurs_at(pipeline_text(c, use_icecast), "queue"@, first_segment(c).len() as int + 3)
            &&& config_or(c, "GSTREAMER_AUDIO_SRC"@, Seq::empty()).len() as int + 3 < first_segment(c).len() as int + 3
        },
{
    reveal_strlit("queue");
    reveal_strlit(" ! queue max-size-buffers=");
    let src = config_or(c, "GSTREAMER_AUDIO_SRC"@, Seq::empty());
    let f = first_segment(c);
    let s2 = second_segment(c);
    let bang = " ! "@;
    let enc = config_or(c, "GSTREAMER_ENCODER"@, Seq::empty());
    let sink = sink_segment(c, use_icecast);
    let n = src.len() as int + 3;
    assert(f.subrange(n, n + 5) =~= "queue"@);
    lemma_occurs_left(f, s2, "queue"@, n);
    lemma_occurs_left(f + s2, bang, "queue"@, n);
    lemma_occurs_left(f + s2 + bang, enc, "queue"@, n);
    lemma_occurs_left(stem(c), sink, "queue"@, n);
    if config_get(c, "GST_SECOND_QUEUE_ENABLE"@) == Some("true"@) {
        assert(s2.subrange(3, 8) =~= "queue"@);
        lemma_occurs_right(f, s2, "queue"@, 3);
        let m = f.len() as int + 3;
        lemma_occurs_left(f + s2, bang, "queue"@, m);
        lemma_occurs_left(f + s2 + bang, enc, "queue"@, m);
        lemma_occurs_left(stem(c), sink, "queue"@, m);
    }
}

/// The sink part of the description: without Icecast it ends with ` ! fakesink`; with
/// Icecast it holds ` ! ` and the sink, `ip=` and the host when `ICECAST_HOST` is set, and
/// `mount=` and the mount point with a leading '/' when `ICECAST_MOUNT` is set.
pub proof fn lemma_sink_text(c: Seq<(String, String)>, use_icecast: bool)
    ensures
        !use_icecast ==> occurs_at(pipeline_text(c, false), " ! fakesink"@, stem(c).len() as int),
        !use_icecast ==> pipeline_text(c, false).len() == stem(c).len() + " ! fakesink"@.len(),
        use_icecast ==> occurs_at(pipeline_text(c, true), " ! "@ + config_or(c, "GSTREAMER_SINK"@, Seq::empty()), stem(c).len() as int),
        use_icecast && config_get(c, "ICECAST_HOST"@) is Some
            ==> contains_text(pipeline_text(c, true), "ip="@ + config_get(c, "ICECAST_HOST"@)->0),
        use_icecast && config_get(c, "ICECAST_MOUNT"@) is Some
            ==> contains_text(pipeline_text(c, true), "mount="@ + normalized_mount(config_get(c, "ICECAST_MOUNT"@)->0)),
{
    let st = stem(c);
    if !use_icecast {
        assert(pipeline_text(c, false).subrange(st.len() as int, st.len() + " ! fakesink"@.len() as int) =~= " ! fakesink"@);
    } else {
        let text = pipeline_text(c, true);
        let sink = " ! "@ + config_or(c, "GSTREAMER_SINK"@, Seq::empty());
        assert(text.subrange(st.len() as int, st.len() + sink.len() as int) =~= sink);
        let front = st + sink + " "@;
        let ps = sink_props(c);
        assert(text =~= front + space_joined(ps));
        let p1: Seq<Seq<char>> = match config_get(c, "ICECAST_HOST"@) { Some(v) => seq!["ip="@ + v], None => Seq::empty() };
        let p2: Seq<Seq<char>> = match config_get(c, "ICECAST_PORT"@) { Some(v) => seq!["port="@ + v], None => Seq::empty() };
        let p3: Seq<Seq<char>> = match config_get(c, "ICECAST_PASSWORD"@) { Some(v) => seq!["password="@ + v], None => Seq::empty() };
        if config_get(c, "ICECAST_HOST"@) is Some {
            assert(ps[0] == "ip="@ + config_get(c, "ICECAST_HOST"@)->0);
            lemma_joined_contains(ps, 0);
            let i = choose|i: int| occurs_at(space_joined(ps), ps[0], i);
            lemma_occurs_right(front, space_joined(ps), ps[0], i);
        }
        if config_get(c, "ICECAST_MOUNT"@) is Some {
            let j = p1.len() as int + p2.len() + p3.len();
            assert(ps[j] == "mount="@ + normalized_mount(config_get(c, "ICECAST_MOUNT"@)->0));
            lemma_joined_contains(ps, j);
            let i = choose|i: int| occurs_at(space_joined(ps), ps[j], i);
            lemma_occurs_right(front, space_joined(ps), ps[j], i);
        }
    }
}

/// The keys that configure the second queue.
pub open spec fn second_queue_key(k: Seq<char>) -> bool {
    ||| k == "GST_SECOND_QUEUE_ENABLE"@
    ||| k == "GST_SECOND_QUEUE_BUFFERS"@
    ||| k == "GST_SECOND_QUEUE_TIME"@
    ||| k == "GST_SECOND_QUEUE_BYTES"@
}

/// Only the exact value `true` of `GST_SECOND_QUEUE_ENABLE` adds the second queue: two
/// configurations that agree on every key but the second queue's, and neither of which sets
/// that key to exactly `true` (it may be absent, `True`, `yes`, ...), give the same description.
pub proof fn lemma_second_queue_only_for_true(c1: Seq<(String, String)>, c2: Seq<(String, String)>, use_icecast: bool)
    requires
        forall|k: Seq<char>| !second_queue_key(k) ==> #[trigger] config_get(c1, k) == config_get(c2, k),
        config_get(c1, "GST_SECOND_QUEUE_ENABLE"@) != Some("true"@),
        config_get(c2, "GST_SECOND_QUEUE_ENABLE"@) != Some("true"@),
    ensures
        pipeline_text(c1, use_icecast) == pipeline_text(c2, use_icecast),
{
    reveal_strlit("GST_SECOND_QUEUE_ENABLE");
    reveal_strlit("GST_SECOND_QUEUE_BUFFERS");
    reveal_strlit("GST_SECOND_QUEUE_TIME");
    reveal_strlit("GST_SECOND_QUEUE_BYTES");
    reveal_strlit("GSTREAMER_AUDIO_SRC");
    reveal_strlit("GST_QUEUE_BUFFERS");
    reveal_strlit("GST_QUEUE_TIME");
    reveal_strlit("GST_QUEUE_BYTES");
    reveal_strlit("GSTREAMER_CONVERT");
    reveal_strlit("GSTREAMER_ENCODER");
    reveal_strlit("GSTREAMER_SINK");
    reveal_strlit("ICECAST_HOST");
    reveal_strlit("ICECAST_PORT");
    reveal_strlit("ICECAST_PASSWORD");
    reveal_strlit("ICECAST_MOUNT");
    reveal_strlit("GSTREAMER_STREAM_NAME");
    reveal_strlit("SHOUT2SEND_SYNC");
    assert("GSTREAMER_STREAM_NAME"@[3] != "GST_SECOND_QUEUE_TIME"@[3]);
    assert("GST_SECOND_QUEUE_ENABLE"@.len() == 23 && "GST_SECOND_QUEUE_BUFFERS"@.len() == 24);
    assert("GST_SECOND_QUEUE_TIME"@.len() == 21 && "GST_SECOND_QUEUE_BYTES"@.len() == 22);
    assert("GSTREAMER_AUDIO_SRC"@.len() == 19 && "GST_QUEUE_BUFFERS"@.len() == 17);
    assert("GST_QUEUE_TIME"@.len() == 14 && "GST_QUEUE_BYTES"@.len() == 15);
    assert("GSTREAMER_CONVERT"@.len() == 17 && "GSTREAMER_ENCODER"@.len() == 17);
    assert("GSTREAMER_SINK"@.len() == 14 && "ICECAST_HOST"@.len() == 12 && "ICECAST_PORT"@.len() == 12);
    assert("ICECAST_PASSWORD"@.len() == 16 && "ICECAST_MOUNT"@.len() == 13);
    assert("GSTREAMER_STREAM_NAME"@.len() == 21 && "SHOUT2SEND_SYNC"@.len() == 15);
    assert(config_get(c1, "GSTREAMER_AUDIO_SRC"@) == config_get(c2, "GSTREAMER_AUDIO_SRC"@));
    assert(config_get(c1, "GST_QUEUE_BUFFERS"@) == config_get(c2, "GST_QUEUE_BUFFERS"@));
    assert(config_get(c1, "GST_QUEUE_TIME"@) == config_get(c2, "GST_QUEUE_TIME"@));
    assert(config_get(c1, "GST_QUEUE_BYTES"@) == config_get(c2, "GST_QUEUE_BYTES"@));
    assert(config_get(c1, "GSTREAMER_CONVERT"@) == config_get(c2, "GSTREAMER_CONVERT"@));
    assert(config_get(c1, "GSTREAMER_ENCODER"@) == config_get(c2, "GSTREAMER_ENCODER"@));
    assert(config_get(c1, "GSTREAMER_SINK"@) == config_get(c2, "GSTREAMER_SINK"@));
    assert(config_get(c1, "ICECAST_HOST"@) == config_get(c2, "ICECAST_HOST"@));
    assert(config_get(c1, "ICECAST_PORT"@) == config_get(c2, "ICECAST_PORT"@));
    assert(config_get(c1, "ICECAST_PASSWORD"@) == config_get(c2, "ICECAST_PASSWORD"@));
    assert(config_get(c1, "ICECAST_MOUNT"@) == config_get(c2, "ICECAST_MOUNT"@));
    assert(config_get(c1, "GSTREAMER_STREAM_NAME"@) == config_get(c2, "GSTREAMER_STREAM_NAME"@));
    assert(config_get(c1, "SHOUT2SEND_SYNC"@) == config_get(c2, "SHOUT2SEND_SYNC"@));
    assert(sink_props(c1) == sink_props(c2));
}

fn push_prop(props: &mut Vec<Vec<char>>, c: &Vec<(String, String)>, k: &str, prefix: &str)
    ensures
        views(final(props)@) == views(old(props)@) + match config_get(c@, k@) {
            Some(v) => seq![prefix@ + v],
            None => Seq::<Seq<char>>::empty(),
        },
{
    let ghost before = views(props@);
    match lookup(c, k) {
        Some(v) => {
            let mut p = chars_of(prefix);
            push_str(&mut p, v.as_str());
            props.push(p);
            assert(views(props@) =~= before + seq![prefix@ + v@]);
        },
        None => {
            assert(views(props@) =~= before + Seq::<Seq<char>>::empty());
        },
    }
}

fn append_joined(out: &mut Vec<char>, ps: &Vec<Vec<char>>)
    ensures
        final(out)@ == old(out)@ + space_joined(views(ps@)),
{
    let ghost start = out@;
    let mut i: usize = 0;
    assert(views(ps@).take(0) =~= Seq::<Seq<char>>::empty());
    while i < ps.len()
        invariant
            i <= ps@.len(),
            out@ == start + space_joined(views(ps@).take(i as int)),
        decreases ps@.len() - i,
    {
        let ghost t = views(ps@).take(i + 1);
        assert(t.drop_last() =~= views(ps@).take(i as int));
        assert(t.last() == ps@[i as int]@);
        if i > 0 {
            out.push(' ');
        }
        let mut p = ps[i].clone();
        assert(p@ =~= ps@[i as int]@);
        out.append(&mut p);
        if i == 0 {
            assert(t =~= seq![ps@[0]@]);
        }
        i = i + 1;
        assert(out@ =~= start + space_joined(views(ps@).take(i as int)));
    }
    assert(views(ps@).take(i as int) =~= views(ps@));
}

/// Builds the pipeline description: source, a leaky queue, converter, an optional second
/// queue, encoder, then the Icecast sink with its properties or a fake sink. The
/// configuration is a list of key/value pairs read first-match: a key's value is that of its
/// first pair, so a configuration with one pair per key reads the same in any order. The second
/// part of the result (extra sink properties) is always empty: the properties are in the description.
#[verifier::spinoff_prover]
#[verifier::rlimit(40)]
pub fn build_pipeline(config: &Vec<(String, String)>, use_icecast: bool) -> (r: (String, Vec<String>))
    requires
        config_get(config@, "GSTREAMER_AUDIO_SRC"@) is Some,
        config_get(config@, "GSTREAMER_CONVERT"@) is Some,
        config_get(config@, "GSTREAMER_ENCODER"@) is Some,
        use_icecast ==> config_get(config@, "GSTREAMER_SINK"@) is Some,
    ensures
        r.0@ == pipeline_text(config@, use_icecast),
        r.1@.len() == 0,
{
    let mut out: Vec<char> = Vec::new();
    append_value(&mut out, config, "GSTREAMER_AUDIO_SRC", "");
    push_str(&mut out, " ! queue max-size-buffers=");
    append_value(&mut out, config, "GST_QUEUE_BUFFERS", "50");
    push_str(&mut out, " max-size-time=");
    append_value(&mut out, config, "GST_QUEUE_TIME", "0");
    push_str(&mut out, " max-size-bytes=");
    append_value(&mut out, config, "GST_QUEUE_BYTES", "0");
    push_str(&mut out, " leaky=2 ! ");
    append_value(&mut out, config, "GSTREAMER_CONVERT", "");
    let ghost head = out@;
    let second = match lookup(config, "GST_SECOND_QUEUE_ENABLE") {
        Some(v) => str_eq(v.as_str(), "true"),
        None => false,
    };
    if second {
        push_str(&mut out, " ! queue max-size-buffers=");
        append_value(&mut out, config, "GST_SECOND_QUEUE_BUFFERS", "50");
        push_str(&mut out, " max-size-time=");
        append_value(&mut out, config, "GST_SECOND_QUEUE_TIME", "0");
        push_str(&mut out, " max-size-bytes=");
        append_value(&mut out, config, "GST_SECOND_QUEUE_BYTES", "0");
        push_str(&mut out, " leaky=2");
    }
    let ghost with_second = out@;
    push_str(&mut out, " ! ");
    append_value(&mut out, config, "GSTREAMER_ENCODER", "");
    let ghost before_tail = out@;
    if use_icecast {
        push_str(&mut out, " ! ");
        append_value(&mut out, config, "GSTREAMER_SINK", "");
        push_str(&mut out, " ");
        let mut props: Vec<Vec<char>> = Vec::new();
        assert(views(props@) =~= Seq::<Seq<char>>::empty());
        push_prop(&mut props, config, "ICECAST_HOST", "ip=");
        push_prop(&mut props, config, "ICECAST_PORT", "port=");
        push_prop(&mut props, config, "ICECAST_PASSWORD", "password=");
        let ghost before_mount = views(props@);
        match lookup(config, "ICECAST_MOUNT") {
            Some(m) => {
                let mc = chars_of(m.as_str());
                let mut p = chars_of("mount=");
                if !(mc.len() > 0 && mc[0] == '/') {
                    p.push('/');
                }
                push_str(&mut p, m.as_str());
                assert(mc@ == m@);
                assert(p@ =~= "mount="@ + normalized_mount(m@));
                props.push(p);
                assert(views(props@) =~= before_mount + seq!["mount="@ + normalized_mount(m@)]);
            },
            None => {
                assert(views(props@) =~= before_mount + Seq::<Seq<char>>::empty());
            },
        }
        push_prop(&mut props, config, "GSTREAMER_STREAM_NAME", "streamname=");
        push_prop(&mut props, config, "SHOUT2SEND_SYNC", "sync=");
        assert(views(props@) =~= sink_props(config@));
        append_joined(&mut out, &props);
    } else {
        push_str(&mut out, " ! fakesink");
    }
    proof {
        reveal_strlit("true");
    }
    assert(out@ =~= pipeline_text(config@, use_icecast));
    (string_from_chars(out.as_slice()), Vec::new())
}

/// Why the Icecast endpoint is unusable.
#[derive(Clone, Copy, Debug, PartialEq, Eq, Structural)]
pub enum EndpointError {
    /// `ICECAST_HOST` or `ICECAST_PORT` is missing.
    Missing,
    /// `ICECAST_PORT` is not a port number.
    InvalidPort,
}

/// The Icecast host and port of the configuration, the port read as a `u16`.
pub fn icecast_endpoint(config: &Vec<(String, String)>) -> (r: Result<(String, u16), EndpointError>)
    ensures
        (config_get(config@, "ICECAST_HOST"@) is None || config_get(config@, "ICECAST_PORT"@) is None)
            ==> r == Err::<(String, u16), EndpointError>(EndpointError::Missing),
        (config_get(config@, "ICECAST_HOST"@) matches Some(h) && config_get(config@, "ICECAST_PORT"@) matches Some(p)) ==> {
            match parse_int_spec(config_get(config@, "ICECAST_PORT"@)->0, 0, 65535) {
                Ok(v) => r is Ok && ({
                    let (host, port) = r.get_Ok_0();
                    host@ == config_get(config@, "ICECAST_HOST"@)->0 && port as int == v
                }),
                Err(_) => r == Err::<(String, u16), EndpointError>(EndpointError::InvalidPort),
            }
        },
{
    let host = match lookup(config, "ICECAST_HOST") { Some(h) => h, None => { return Err(EndpointError::Missing); } };
    let port = match lookup(config, "ICECAST_PORT") { Some(p) => p, None => { return Err(EndpointError::Missing); } };
    let pc = chars_of(port.as_str());
    proof { lemma_parse_int_range(pc@, 0, 65535); }
    match parse_int(pc.as_slice(), 0, 65535) {
        Ok(v) => Ok((host.clone(), v as u16)),
        Err(_) => Err(EndpointError::InvalidPort),
    }
}

/// The arguments the pipeline description is launched with: its words.
pub fn pipeline_args(pipeline: &str) -> (r: Vec<Vec<char>>)
    ensures
        views(r@) == words(pipeline@),
{
    let cs = chars_of(pipeline);
    split_words(cs.as_slice())
}

} // verus!
