use vstd::prelude::*;

verus! {

broadcast use vstd::string::group_string_axioms;

/// Whether two string slices hold the same characters.
pub fn same_text(a: &str, b: &str) -> (r: bool)
    ensures
        r == (a@ == b@),
{
    a.to_owned() == b.to_owned()
}

/// Appends one character to a string, by `String::push`, whose documentation
/// says that it appends the given `char` to the end of the `String`.
#[verifier::external_body]
pub(crate) fn push_char(s: &mut String, c: char)
    ensures
        final(s)@ == old(s)@.push(c),
{
    s.push(c);
}

/// The pieces of `s` between line feeds, in order; there is always one
/// more piece than there are line feeds.
pub open spec fn newline_pieces(s: Seq<char>) -> Seq<Seq<char>>
    decreases s.len(),
{
    if s.len() == 0 {
        seq![Seq::<char>::empty()]
    } else {
        let p = newline_pieces(s.drop_last());
        if s.last() == '\n' {
            p.push(Seq::<char>::empty())
        } else {
            p.update(p.len() - 1, p.last().push(s.last()))
        }
    }
}

/// A line that was ended by a line feed loses one carriage return at its end.
pub open spec fn strip_cr(l: Seq<char>) -> Seq<char> {
    if l.len() > 0 && l.last() == '\r' {
        l.drop_last()
    } else {
        l
    }
}

/// The lines of `s`, as `str::lines` yields them: split at each line feed,
/// a carriage return right before a line feed dropped, and no empty line
/// after a final line feed (so an empty text has no lines).
pub open spec fn lines_of(s: Seq<char>) -> Seq<Seq<char>> {
    let p = newline_pieces(s);
    let ended = Seq::new((p.len() - 1) as nat, |i: int| strip_cr(p[i]));
    if p.last().len() == 0 {
        ended
    } else {
        ended.push(p.last())
    }
}

/// There is always at least one piece.
pub proof fn lemma_newline_pieces_nonempty(s: Seq<char>)
    ensures
        newline_pieces(s).len() >= 1,
    decreases s.len(),
{
    if s.len() > 0 {
        lemma_newline_pieces_nonempty(s.drop_last());
    }
}

/// Splits `text` into its lines, as `str::lines` does.
pub fn split_lines(text: &str) -> (r: Vec<String>)
    ensures
        r@.len() == lines_of(text@).len(),
        forall|i: int| 0 <= i < r@.len() ==> #[trigger] r@[i]@ == lines_of(text@)[i],
{
    let mut done: Vec<String> = Vec::new();
    let mut cur = String::new();
    let mut pending_cr = false;
    proof {
        lemma_newline_pieces_nonempty(Seq::<char>::empty());
    }
    for c in it: text.chars()
        invariant
            it.seq() == text@,
            ({
                let p = newline_pieces(it.seq().take(it.index()));
                &&& p.len() >= 1
                &&& done@.len() == p.len() - 1
                &&& forall|i: int| 0 <= i < done@.len() ==> #[trigger] done@[i]@ == strip_cr(p[i])
                &&& (if pending_cr { cur@.push('\r') } else { cur@ }) == p.last()
                &&& (!pending_cr ==> (cur@.len() == 0 || cur@.last() != '\r'))
            }),
    {
        let ghost pre = it.seq().take(it.index());
        let ghost next = it.seq().take(it.index() + 1);
        proof {
            assert(next.drop_last() =~= pre);
            assert(next.last() == c);
            lemma_newline_pieces_nonempty(pre);
        }
        let ghost p_pre = newline_pieces(pre);
        let ghost old_cur = cur@;
        let ghost old_done = done@;
        let ghost old_pending = pending_cr;
        if c == '\n' {
            let line = cur;
            done.push(line);
            cur = String::new();
            pending_cr = false;
            proof {
                let p_next = newline_pieces(next);
                assert(p_next == p_pre.push(Seq::<char>::empty()));
                if old_pending {
                    assert(old_cur.push('\r').drop_last() =~= old_cur);
                }
                assert(strip_cr(p_pre.last()) == old_cur);
                assert forall|i: int| 0 <= i < done@.len() implies #[trigger] done@[i]@ == strip_cr(p_next[i]) by {
                    if i < old_done.len() {
                        assert(done@[i] == old_done[i]);
                    }
                }
            }
        } else if c == '\r' {
            if pending_cr {
                push_char(&mut cur, '\r');
            }
            pending_cr = true;
            proof {
                let p_next = newline_pieces(next);
                assert(p_next == p_pre.update(p_pre.len() - 1, p_pre.last().push(c)));
                assert(p_next.last() == p_pre.last().push('\r'));
                assert forall|i: int| 0 <= i < done@.len() implies #[trigger] done@[i]@ == strip_cr(p_next[i]) by {
                    assert(p_next[i] == p_pre[i]);
                }
            }
        } else {
            if pending_cr {
                push_char(&mut cur, '\r');
            }
            push_char(&mut cur, c);
            pending_cr = false;
            proof {
                let p_next = newline_pieces(next);
                assert(p_next == p_pre.update(p_pre.len() - 1, p_pre.last().push(c)));
                assert(p_next.last() == p_pre.last().push(c));
                assert(cur@ == p_pre.last().push(c));
                assert forall|i: int| 0 <= i < done@.len() implies #[trigger] done@[i]@ == strip_cr(p_next[i]) by {
                    assert(p_next[i] == p_pre[i]);
                }
            }
        }
    }
    proof {
        assert(text@.take(text@.len() as int) =~= text@);
    }
    if pending_cr {
        push_char(&mut cur, '\r');
    }
    if !cur.as_str().is_empty() {
        done.push(cur);
    }
    proof {
        let p = newline_pieces(text@);
        assert(cur@.len() == 0 <==> p.last().len() == 0);
    }
    done
}

/// The lines `ls` joined with line feeds between them.
pub open spec fn join_lines(ls: Seq<Seq<char>>) -> Seq<char>
    decreases ls.len(),
{
    if ls.len() == 0 {
        Seq::<char>::empty()
    } else if ls.len() == 1 {
        ls[0]
    } else {
        join_lines(ls.drop_last()) + seq!['\n'] + ls.last()
    }
}

/// A line marked as quoted.
pub open spec fn quote_line(l: Seq<char>) -> Seq<char> {
    seq!['>', ' '] + l
}

/// The text that quotes `body` in a reply: each line of `body` behind
/// `> `, the lines joined with line feeds, then two line feeds.
pub open spec fn quoted_text(body: Seq<char>) -> Seq<char> {
    join_lines(lines_of(body).map_values(|l: Seq<char>| quote_line(l))) + seq!['\n', '\n']
}

/// Builds the text that quotes `body` in a reply.
pub fn quote_text(body: &str) -> (r: String)
    ensures
        r@ == quoted_text(body@),
{
    let lines = split_lines(body);
    let ghost ql = lines_of(body@).map_values(|l: Seq<char>| quote_line(l));
    let mut out = String::new();
    let n = lines.len();
    for i in 0..n
        invariant
            n == lines@.len(),
            n == ql.len(),
            forall|j: int| 0 <= j < n ==> #[trigger] ql[j] == quote_line(lines@[j]@),
            out@ == join_lines(ql.take(i as int)),
    {
        let ghost before = out@;
        if i > 0 {
            push_char(&mut out, '\n');
        }
        push_char(&mut out, '>');
        push_char(&mut out, ' ');
        out.append(lines[i].as_str());
        proof {
            let t = ql.take(i + 1);
            assert(t.drop_last() =~= ql.take(i as int));
            assert(t.last() == quote_line(lines@[i as int]@));
            if i == 0 {
                assert(out@ =~= quote_line(lines@[0]@));
            } else {
                assert(out@ =~= before + seq!['\n'] + quote_line(lines@[i as int]@));
            }
        }
    }
    proof {
        assert(ql.take(n as int) =~= ql);
    }
    push_char(&mut out, '\n');
    push_char(&mut out, '\n');
    proof {
        assert(out@ =~= join_lines(ql) + seq!['\n', '\n']);
    }
    out
}

/// The markup that shows an emote: the sender's name in bold, a space, then
/// the text. Neither part is escaped.
pub open spec fn emote_markup_of(username: Seq<char>, text: Seq<char>) -> Seq<char> {
    seq!['<', 'b', '>'] + username + seq!['<', '/', 'b', '>', ' '] + text
}

/// Builds the markup that shows an emote of `username`.
pub fn emote_markup(username: &str, text: &str) -> (r: String)
    ensures
        r@ == emote_markup_of(username@, text@),
        r@ == "<b>"@ + username@ + "</b> "@ + text@,
{
    proof {
        lemma_emote_markup_shape(username@, text@);
    }
    let mut out = String::new();
    push_char(&mut out, '<');
    push_char(&mut out, 'b');
    push_char(&mut out, '>');
    out.append(username);
    push_char(&mut out, '<');
    push_char(&mut out, '/');
    push_char(&mut out, 'b');
    push_char(&mut out, '>');
    push_char(&mut out, ' ');
    out.append(text);
    proof {
        assert(out@ =~= emote_markup_of(username@, text@));
    }
    out
}

/// A final line feed is optional: a text that ends in neither a line feed
/// nor a carriage return has the same lines with a line feed added.
pub proof fn lemma_final_line_feed_optional(t: Seq<char>)
    requires
        t.len() > 0,
        t.last() != '\n',
        t.last() != '\r',
    ensures
        lines_of(t.push('\n')) == lines_of(t),
{
    let t2 = t.push('\n');
    assert(t2.drop_last() =~= t);
    let p = newline_pieces(t);
    let init = newline_pieces(t.drop_last());
    lemma_newline_pieces_nonempty(t.drop_last());
    assert(p.last() == init.last().push(t.last()));
    let p2 = newline_pieces(t2);
    assert(p2 == p.push(Seq::<char>::empty()));
    assert(strip_cr(p.last()) == p.last());
    assert(lines_of(t2) =~= lines_of(t));
}

/// No line holds a line feed.
pub proof fn lemma_lines_hold_no_line_feed(s: Seq<char>, i: int, j: int)
    requires
        0 <= i < lines_of(s).len(),
        0 <= j < lines_of(s)[i].len(),
    ensures
        lines_of(s)[i][j] != '\n',
{
    lemma_pieces_hold_no_line_feed(s);
    lemma_newline_pieces_nonempty(s);
}

proof fn lemma_pieces_hold_no_line_feed(s: Seq<char>)
    ensures
        forall|i: int, j: int|
            0 <= i < newline_pieces(s).len() && 0 <= j < newline_pieces(s)[i].len()
                ==> #[trigger] newline_pieces(s)[i][j] != '\n',
    decreases s.len(),
{
    if s.len() > 0 {
        lemma_pieces_hold_no_line_feed(s.drop_last());
        lemma_newline_pieces_nonempty(s.drop_last());
        let p = newline_pieces(s.drop_last());
        if s.last() != '\n' {
            assert forall|i: int, j: int|
                0 <= i < newline_pieces(s).len() && 0 <= j < newline_pieces(s)[i].len()
                    implies #[trigger] newline_pieces(s)[i][j] != '\n' by {
                if i == p.len() - 1 && j == p.last().len() {
                } else {
                    assert(newline_pieces(s)[i][j] == p[i][j]);
                }
            }
        } else {
            assert forall|i: int, j: int|
                0 <= i < newline_pieces(s).len() && 0 <= j < newline_pieces(s)[i].len()
                    implies #[trigger] newline_pieces(s)[i][j] != '\n' by {
                assert(newline_pieces(s)[i][j] == p[i][j]);
            }
        }
    }
}

/// The emote markup is `<b>`, the whole sender name whatever its length,
/// `</b> `, then the whole text.
pub proof fn lemma_emote_markup_shape(username: Seq<char>, text: Seq<char>)
    ensures
        emote_markup_of(username, text) == "<b>"@ + username + "</b> "@ + text,
        emote_markup_of(username, text).len() == username.len() + text.len() + 8,
        emote_markup_of(username, text).subrange(3, 3 + username.len() as int) == username,
        emote_markup_of(username, text).subrange(
            8 + username.len() as int,
            8 + username.len() + text.len() as int,
        ) == text,
{
    reveal_strlit("<b>");
    reveal_strlit("</b> ");
    let m = emote_markup_of(username, text);
    assert(m =~= "<b>"@ + username + "</b> "@ + text);
    assert(m.subrange(3, 3 + username.len() as int) =~= username);
    assert(m.subrange(8 + username.len() as int, 8 + username.len() + text.len() as int) =~= text);
}

/// The number of line feeds in `s`.
pub open spec fn count_line_feeds(s: Seq<char>) -> nat
    decreases s.len(),
{
    if s.len() == 0 {
        0
    } else {
        count_line_feeds(s.drop_last()) + if s.last() == '\n' {
            1nat
        } else {
            0nat
        }
    }
}

proof fn lemma_count_concat(a: Seq<char>, b: Seq<char>)
    ensures
        count_line_feeds(a + b) == count_line_feeds(a) + count_line_feeds(b),
    decreases b.len(),
{
    if b.len() > 0 {
        assert((a + b).drop_last() =~= a + b.drop_last());
        lemma_count_concat(a, b.drop_last());
    } else {
        assert(a + b =~= a);
    }
}

proof fn lemma_count_none(s: Seq<char>)
    requires
        forall|j: int| 0 <= j < s.len() ==> s[j] != '\n',
    ensures
        count_line_feeds(s) == 0,
    decreases s.len(),
{
    if s.len() > 0 {
        lemma_count_none(s.drop_last());
    }
}

proof fn lemma_count_join(ls: Seq<Seq<char>>)
    requires
        forall|i: int, j: int| 0 <= i < ls.len() && 0 <= j < ls[i].len() ==> #[trigger] ls[i][j] != '\n',
    ensures
        count_line_feeds(join_lines(ls)) == (if ls.len() == 0 {
            0
        } else {
            ls.len() - 1
        }),
    decreases ls.len(),
{
    if ls.len() == 1 {
        assert forall|j: int| 0 <= j < ls[0].len() implies ls[0][j] != '\n' by {
            assert(ls[0][j] != '\n');
        }
        lemma_count_none(ls[0]);
    } else if ls.len() > 1 {
        let init = ls.drop_last();
        assert forall|i: int, j: int| 0 <= i < init.len() && 0 <= j < init[i].len() implies #[trigger] init[i][j] != '\n' by {
            assert(init[i] == ls[i]);
        }
        lemma_count_join(init);
        let last = ls.last();
        assert forall|j: int| 0 <= j < last.len() implies last[j] != '\n' by {
            assert(ls[ls.len() - 1][j] != '\n');
        }
        lemma_count_none(last);
        lemma_count_concat(join_lines(init), seq!['\n']);
        lemma_count_concat(join_lines(init) + seq!['\n'], last);
        assert(count_line_feeds(seq!['\n']) == 1) by {
            assert(seq!['\n'].drop_last() =~= Seq::<char>::empty());
            assert(seq!['\n'].last() == '\n');
            assert(count_line_feeds(Seq::<char>::empty()) == 0);
        }
    }
}

/// A reply quote is each line of the body behind `> `, every line kept and
/// in order, joined by line feeds, then two line feeds; so it holds exactly
/// one line feed per line of the body plus one (two for an empty body).
pub proof fn lemma_quote_has_every_line(body: Seq<char>)
    ensures
        quoted_text(body) == join_lines(
            lines_of(body).map_values(|l: Seq<char>| seq!['>', ' '] + l),
        ) + seq!['\n', '\n'],
        count_line_feeds(quoted_text(body)) == (if lines_of(body).len() == 0 {
            2
        } else {
            lines_of(body).len() + 1
        }),
{
    let ls = lines_of(body);
    let ql = ls.map_values(|l: Seq<char>| quote_line(l));
    assert(ql =~= ls.map_values(|l: Seq<char>| seq!['>', ' '] + l));
    assert forall|i: int, j: int| 0 <= i < ql.len() && 0 <= j < ql[i].len() implies #[trigger] ql[i][j] != '\n' by {
        if j >= 2 {
            lemma_lines_hold_no_line_feed(body, i, j - 2);
        }
    }
    lemma_count_join(ql);
    lemma_count_concat(join_lines(ql), seq!['\n', '\n']);
    assert(count_line_feeds(seq!['\n', '\n']) == 2) by {
        let one = seq!['\n'];
        assert(seq!['\n', '\n'].drop_last() =~= one);
        assert(seq!['\n', '\n'].last() == '\n');
        assert(one.drop_last() =~= Seq::<char>::empty());
        assert(one.last() == '\n');
        assert(count_line_feeds(Seq::<char>::empty()) == 0);
        assert(count_line_feeds(one) == 1);
    }
}

} // verus!
