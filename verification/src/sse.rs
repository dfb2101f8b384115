//! Framing of server-sent event streams: the decoder buffers the bytes of a
//! stream, cuts complete lines, and hands out the `data:` payloads.
use vstd::prelude::*;

use crate::text::{
    chars_of, has_prefix, lines, occurs_at_exec, push_all, split_lines, str_eq, str_lines,
    string_of, sub_vec, trim_bounds, trim_seq, views,
};

verus! {

/// A complete event of the stream.
pub enum SseFrame {
    /// The stream's end marker `[DONE]`.
    Done,
    /// The text of one `data:` line, trimmed.
    Payload(String),
}

pub enum FrameView {
    Done,
    Payload(Seq<char>),
}

pub open spec fn frame_view(f: SseFrame) -> FrameView {
    match f {
        SseFrame::Done => FrameView::Done,
        SseFrame::Payload(p) => FrameView::Payload(p@),
    }
}

pub open spec fn frames_view(fs: Seq<SseFrame>) -> Seq<FrameView> {
    fs.map_values(|f: SseFrame| frame_view(f))
}

/// The event one line of the stream carries.  Without the line-delimited JSON
/// mode only `data:` lines count; in that mode a bare line is a payload too.
pub open spec fn line_frame(line: Seq<char>, bare_lines: bool) -> Option<FrameView> {
    let l = trim_seq(line);
    let payload: Option<Seq<char>> = if has_prefix(l, "data:"@) {
        Some(trim_seq(l.skip(5)))
    } else if bare_lines {
        Some(l)
    } else {
        None
    };
    if l.len() == 0 {
        None
    } else {
        match payload {
            None => None,
            Some(p) => if p.len() == 0 {
                None
            } else if p == "[DONE]"@ {
                Some(FrameView::Done)
            } else {
                Some(FrameView::Payload(p))
            },
        }
    }
}

/// The events of a sequence of lines, in order.
pub open spec fn frames_of_lines(ls: Seq<Seq<char>>, bare_lines: bool) -> Seq<FrameView>
    decreases ls.len(),
{
    if ls.len() == 0 {
        seq![]
    } else {
        (match line_frame(ls[0], bare_lines) {
            Some(f) => seq![f],
            None => seq![],
        }) + frames_of_lines(ls.drop_first(), bare_lines)
    }
}

/// The events of the complete lines of `s`, and its unterminated rest.
pub open spec fn decode(s: Seq<char>, bare_lines: bool) -> (Seq<FrameView>, Seq<char>) {
    let (ls, rest) = split_lines(s, seq![]);
    (frames_of_lines(ls, bare_lines), rest)
}

/// Bare lines count as payloads for the Ollama provider, which streams JSON
/// lines without the `data:` prefix.
pub open spec fn bare_lines_for(provider_id: Option<&str>) -> bool {
    provider_id matches Some(p) && p@ == "ollama"@
}

/// Decoder state: what has been received after the last newline.
pub struct SseDecoder {
    buffer: String,
}

impl SseDecoder {
    pub closed spec fn pending(&self) -> Seq<char> {
        self.buffer@
    }

    /// The pending text holds no newline: every complete line was decoded.
    pub open spec fn wf(&self) -> bool {
        !has_newline(self.pending())
    }

    pub fn new() -> (r: SseDecoder)
        ensures
            r.pending() == Seq::<char>::empty(),
            r.wf(),
    {
        assert(!has_newline(Seq::<char>::empty()));
        SseDecoder { buffer: String::new() }
    }

    /// Appends `chunk` and returns the events of the lines it completes; the
    /// text after the last newline waits for the next chunk.
    pub fn feed(&mut self, chunk: &str, provider_id: Option<&str>) -> (r: Vec<SseFrame>)
        ensures
            frames_view(r@) == decode(old(self).pending() + chunk@, bare_lines_for(provider_id)).0,
            final(self).pending() == decode(old(self).pending() + chunk@, bare_lines_for(
                provider_id,
            )).1,
            final(self).wf(),
    {
        proof {
            lemma_pending_has_no_newline(old(self).pending() + chunk@, bare_lines_for(provider_id));
        }
        let bare = match provider_id {
            Some(p) => str_eq(p, "ollama"),
            None => false,
        };
        let mut all = chars_of(self.buffer.as_str());
        let tail = chars_of(chunk);
        push_all(&mut all, &tail);
        let ghost total = split_lines(all@, seq![]);
        let mut out: Vec<SseFrame> = Vec::new();
        let mut cur: Vec<char> = Vec::new();
        let n = all.len();
        let mut i: usize = 0;
        assert(all@.skip(0) =~= all@);
        while i < n
            invariant
                n == all.len(),
                i <= n,
                frames_view(out@) + frames_of_lines(split_lines(all@.skip(i as int), cur@).0, bare)
                    == frames_of_lines(total.0, bare),
                split_lines(all@.skip(i as int), cur@).1 == total.1,
            decreases n - i,
        {
            let ghost rest = all@.skip(i as int);
            assert(rest.drop_first() =~= all@.skip(i + 1));
            let c = all[i];
            if c == '\n' {
                let ghost r = split_lines(rest.drop_first(), seq![]);
                let ghost before = frames_view(out@);
                let ghost line = cur@;
                assert((seq![line] + r.0).drop_first() =~= r.0);
                let f = line_frame_exec(&cur, bare);
                match f {
                    Some(frame) => {
                        out.push(frame);
                        assert(frames_view(out@) =~= before + seq![line_frame(line, bare).unwrap()]);
                    },
                    None => {
                        assert(frames_view(out@) =~= before + Seq::<FrameView>::empty());
                    },
                }
                cur = Vec::new();
                assert(cur@ =~= Seq::<char>::empty());
            } else {
                cur.push(c);
            }
            i += 1;
        }
        assert(all@.skip(n as int) =~= Seq::<char>::empty());
        assert(frames_view(out@) + Seq::<FrameView>::empty() =~= frames_view(out@));
        self.buffer = string_of(cur.as_slice());
        out
    }
}

/// The event of one line, computed.
pub fn line_frame_exec(line: &Vec<char>, bare_lines: bool) -> (r: Option<SseFrame>)
    ensures
        match r {
            Some(f) => line_frame(line@, bare_lines) == Some(frame_view(f)),
            None => line_frame(line@, bare_lines) is None,
        },
{
    let (a, b) = trim_bounds(line);
    let l = sub_vec(line, a, b);
    if l.len() == 0 {
        return None;
    }
    let prefix = chars_of("data:");
    proof {
        reveal_strlit("data:");
        assert("data:"@.len() == 5);
    }
    let payload: Vec<char>;
    if occurs_at_exec(&l, &prefix, 0) {
        let (pa, pb) = trim_bounds_from(&l, 5);
        payload = sub_vec(&l, pa, pb);
    } else if bare_lines {
        payload = l;
    } else {
        return None;
    }
    if payload.len() == 0 {
        return None;
    }
    let done = chars_of("[DONE]");
    let is_done = payload.len() == done.len() && occurs_at_exec(&payload, &done, 0);
    proof {
        if payload@.len() == done@.len() {
            assert(payload@.subrange(0, done@.len() as int) =~= payload@);
        }
    }
    if is_done {
        Some(SseFrame::Done)
    } else {
        Some(SseFrame::Payload(string_of(payload.as_slice())))
    }
}

/// Bounds of `v[from..]` trimmed, as indices into `v`.
pub fn trim_bounds_from(v: &Vec<char>, from: usize) -> (r: (usize, usize))
    requires
        from <= v.len(),
    ensures
        from <= r.0 <= r.1 <= v.len(),
        v@.subrange(r.0 as int, r.1 as int) == trim_seq(v@.skip(from as int)),
{
    let rest = sub_vec(v, from, v.len());
    assert(rest@ =~= v@.skip(from as int));
    let (a, b) = trim_bounds(&rest);
    assert(v@.subrange(from + a, from + b) =~= rest@.subrange(a as int, b as int));
    (from + a, from + b)
}

// ------------------------------------------------------------------
// Chunking does not matter
// ------------------------------------------------------------------

pub open spec fn has_newline(s: Seq<char>) -> bool {
    exists|i: int| 0 <= i < s.len() && s[i] == '\n'
}

/// Splitting a concatenation is splitting the first part, then the second
/// part from the first part's rest.
pub proof fn lemma_split_lines_append(s1: Seq<char>, s2: Seq<char>, cur: Seq<char>)
    ensures
        split_lines(s1 + s2, cur) == ({
            let a = split_lines(s1, cur);
            let b = split_lines(s2, a.1);
            (a.0 + b.0, b.1)
        }),
    decreases s1.len(),
{
    if s1.len() == 0 {
        assert(s1 + s2 =~= s2);
        assert(Seq::<Seq<char>>::empty() + split_lines(s2, cur).0 =~= split_lines(s2, cur).0);
    } else {
        assert((s1 + s2).drop_first() =~= s1.drop_first() + s2);
        assert((s1 + s2)[0] == s1[0]);
        if s1[0] == '\n' {
            lemma_split_lines_append(s1.drop_first(), s2, seq![]);
            let a = split_lines(s1.drop_first(), seq![]);
            let b = split_lines(s2, a.1);
            assert(seq![cur] + (a.0 + b.0) =~= (seq![cur] + a.0) + b.0);
        } else {
            lemma_split_lines_append(s1.drop_first(), s2, cur.push(s1[0]));
        }
    }
}

/// A newline-free prefix can be read into the current line first.
pub proof fn lemma_split_lines_prefix(x: Seq<char>, s: Seq<char>, cur: Seq<char>)
    requires
        !has_newline(x),
    ensures
        split_lines(x + s, cur) == split_lines(s, cur + x),
    decreases x.len(),
{
    if x.len() == 0 {
        assert(x + s =~= s);
        assert(cur + x =~= cur);
    } else {
        assert((x + s).drop_first() =~= x.drop_first() + s);
        assert((x + s)[0] == x[0]);
        assert(x[0] != '\n');
        assert(!has_newline(x.drop_first())) by {
            if has_newline(x.drop_first()) {
                let i = choose|i: int| 0 <= i < x.drop_first().len() && x.drop_first()[i] == '\n';
                assert(x[i + 1] == '\n');
            }
        }
        lemma_split_lines_prefix(x.drop_first(), s, cur.push(x[0]));
        assert(cur.push(x[0]) + x.drop_first() =~= cur + x);
    }
}

/// The unterminated rest never holds a newline.
pub proof fn lemma_split_rest_has_no_newline(s: Seq<char>, cur: Seq<char>)
    requires
        !has_newline(cur),
    ensures
        !has_newline(split_lines(s, cur).1),
    decreases s.len(),
{
    if s.len() > 0 {
        if s[0] == '\n' {
            lemma_split_rest_has_no_newline(s.drop_first(), seq![]);
        } else {
            assert(!has_newline(cur.push(s[0]))) by {
                if has_newline(cur.push(s[0])) {
                    let i = choose|i: int| 0 <= i < cur.push(s[0]).len() && cur.push(s[0])[i] == '\n';
                    if i < cur.len() {
                        assert(cur[i] == '\n');
                    }
                }
            }
            lemma_split_rest_has_no_newline(s.drop_first(), cur.push(s[0]));
        }
    }
}

pub proof fn lemma_frames_of_lines_append(l1: Seq<Seq<char>>, l2: Seq<Seq<char>>, bare: bool)
    ensures
        frames_of_lines(l1 + l2, bare) == frames_of_lines(l1, bare) + frames_of_lines(l2, bare),
    decreases l1.len(),
{
    if l1.len() == 0 {
        assert(l1 + l2 =~= l2);
        assert(Seq::<FrameView>::empty() + frames_of_lines(l2, bare) =~= frames_of_lines(l2, bare));
    } else {
        assert((l1 + l2).drop_first() =~= l1.drop_first() + l2);
        assert((l1 + l2)[0] == l1[0]);
        lemma_frames_of_lines_append(l1.drop_first(), l2, bare);
        let h = match line_frame(l1[0], bare) {
            Some(f) => seq![f],
            None => Seq::<FrameView>::empty(),
        };
        assert(h + (frames_of_lines(l1.drop_first(), bare) + frames_of_lines(l2, bare)) =~= (h
            + frames_of_lines(l1.drop_first(), bare)) + frames_of_lines(l2, bare));
    }
}

/// Feeding `a` and then `b` hands out the same events, and leaves the same
/// pending text, as feeding `a + b` at once, whatever the decoder held.
pub proof fn lemma_feed_chunking(pending: Seq<char>, a: Seq<char>, b: Seq<char>, bare: bool)
    requires
        !has_newline(pending),
    ensures
        ({
            let first = decode(pending + a, bare);
            let second = decode(first.1 + b, bare);
            let whole = decode(pending + a + b, bare);
            whole.0 == first.0 + second.0 && whole.1 == second.1
        }),
{
    let s1 = pending + a;
    let x = split_lines(s1, seq![]);
    lemma_split_lines_append(s1, b, seq![]);
    assert(!has_newline(Seq::<char>::empty()));
    lemma_split_rest_has_no_newline(s1, seq![]);
    lemma_split_lines_prefix(x.1, b, seq![]);
    assert(Seq::<char>::empty() + x.1 =~= x.1);
    let y = split_lines(b, x.1);
    lemma_frames_of_lines_append(x.0, y.0, bare);
}

/// Feeding a decoder `a` and then `b` hands out the events that feeding
/// `a + b` at once does, in the same order, and leaves the same pending
/// text: the events depend only on the complete lines received.
pub proof fn lemma_decoder_feed_chunking(
    d: SseDecoder,
    a: Seq<char>,
    b: Seq<char>,
    provider_id: Option<&str>,
)
    requires
        d.wf(),
    ensures
        ({
            let bare = bare_lines_for(provider_id);
            let first = decode(d.pending() + a, bare);
            let second = decode(first.1 + b, bare);
            let whole = decode(d.pending() + (a + b), bare);
            whole.0 == first.0 + second.0 && whole.1 == second.1
        }),
{
    lemma_feed_chunking(d.pending(), a, b, bare_lines_for(provider_id));
    assert(d.pending() + (a + b) =~= d.pending() + a + b);
}

/// The pending text of a decoder never holds a newline.
pub proof fn lemma_pending_has_no_newline(s: Seq<char>, bare: bool)
    ensures
        !has_newline(decode(s, bare).1),
{
    assert(!has_newline(Seq::<char>::empty()));
    lemma_split_rest_has_no_newline(s, seq![]);
}

/// The payload one line carries, when it is no end marker.
pub open spec fn line_payload(line: Seq<char>, bare_lines: bool) -> Option<Seq<char>> {
    match line_frame(line, bare_lines) {
        Some(FrameView::Payload(p)) => Some(p),
        _ => None,
    }
}

pub open spec fn payloads_of_lines(ls: Seq<Seq<char>>, bare_lines: bool) -> Seq<Seq<char>>
    decreases ls.len(),
{
    if ls.len() == 0 {
        seq![]
    } else {
        payloads_of_lines(ls.drop_last(), bare_lines) + match line_payload(ls.last(), bare_lines) {
            Some(p) => seq![p],
            None => seq![],
        }
    }
}

/// The payloads of a whole stream held in one string, line by line
/// (`str::lines`), in order.
pub fn dump_payloads(raw: &str, bare_lines: bool) -> (r: Vec<String>)
    ensures
        views(r@) == payloads_of_lines(str_lines(raw@), bare_lines),
{
    let ls = lines(raw);
    let ghost all = views(ls@);
    let mut out: Vec<String> = Vec::new();
    let mut i: usize = 0;
    while i < ls.len()
        invariant
            i <= ls@.len(),
            all == views(ls@),
            all == str_lines(raw@),
            views(out@) == payloads_of_lines(all.take(i as int), bare_lines),
        decreases ls@.len() - i,
    {
        assert(all.take(i + 1).drop_last() =~= all.take(i as int));
        assert(all.take(i + 1).last() == ls@[i as int]@);
        let line = chars_of(ls[i].as_str());
        let ghost before = views(out@);
        match line_frame_exec(&line, bare_lines) {
            Some(SseFrame::Payload(p)) => {
                out.push(p);
                assert(views(out@) =~= before.push(views(out@).last()));
            },
            _ => {},
        }
        assert(views(out@) =~= payloads_of_lines(all.take(i + 1), bare_lines));
        i += 1;
    }
    assert(all.take(i as int) =~= all);
    out
}

} // verus!
