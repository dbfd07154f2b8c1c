use vstd::prelude::*;
use vstd::string::{StrSliceExecFns, StringExecFns};

verus! {

/// A separator position in a tag string: a comma followed by exactly one
/// space starts at `j`.
pub open spec fn sep_at(s: Seq<char>, j: int) -> bool {
    &&& 0 <= j
    &&& j + 2 <= s.len()
    &&& s[j] == ','
    &&& s[j + 1] == ' '
}

/// The tag string split on the literal separator `", "`, left to right,
/// with no further trimming: single-delimiter splitting, not a CSV parser.
/// A string without the separator is one token, verbatim.
pub open spec fn spec_split_tags(s: Seq<char>) -> Seq<Seq<char>>
    decreases s.len(),
{
    if s.len() < 2 {
        seq![s]
    } else if s[0] == ',' && s[1] == ' ' {
        seq![Seq::<char>::empty()] + spec_split_tags(s.subrange(2, s.len() as int))
    } else {
        let rest = spec_split_tags(s.subrange(1, s.len() as int));
        seq![seq![s[0]] + rest[0]] + rest.drop_first()
    }
}

/// Splitting yields at least one token.
pub proof fn lemma_split_tags_nonempty(s: Seq<char>)
    ensures
        spec_split_tags(s).len() >= 1,
    decreases s.len(),
{
    if s.len() < 2 {
    } else if s[0] == ',' && s[1] == ' ' {
    } else {
        lemma_split_tags_nonempty(s.subrange(1, s.len() as int));
    }
}

/// A string with no separator anywhere is a single verbatim token.
pub proof fn lemma_split_tags_no_sep(s: Seq<char>)
    requires
        forall|j: int| !sep_at(s, j),
    ensures
        spec_split_tags(s) == seq![s],
    decreases s.len(),
{
    if s.len() < 2 {
    } else {
        assert(!sep_at(s, 0));
        let tail = s.subrange(1, s.len() as int);
        assert forall|j: int| !sep_at(tail, j) by {
            if sep_at(tail, j) {
                assert(sep_at(s, j + 1));
            }
        }
        lemma_split_tags_no_sep(tail);
        assert(seq![s[0]] + tail =~= s);
        assert(spec_split_tags(s) =~~= seq![s]);
    }
}

/// Splitting takes the token before the leftmost separator off the front.
pub proof fn lemma_split_tags_at_sep(s: Seq<char>, k: int)
    requires
        sep_at(s, k),
        forall|j: int| 0 <= j < k ==> !sep_at(s, j),
    ensures
        spec_split_tags(s) == seq![s.subrange(0, k)] + spec_split_tags(
            s.subrange(k + 2, s.len() as int),
        ),
    decreases k,
{
    if k == 0 {
        assert(s.subrange(0, 0) =~= Seq::<char>::empty());
        assert(spec_split_tags(s) =~~= seq![s.subrange(0, 0)] + spec_split_tags(
            s.subrange(2, s.len() as int),
        ));
    } else {
        assert(!sep_at(s, 0));
        let tail = s.subrange(1, s.len() as int);
        assert(sep_at(tail, k - 1));
        assert forall|j: int| 0 <= j < k - 1 implies !sep_at(tail, j) by {
            if sep_at(tail, j) {
                assert(sep_at(s, j + 1));
            }
        }
        lemma_split_tags_at_sep(tail, k - 1);
        let after = s.subrange(k + 2, s.len() as int);
        assert(tail.subrange(k - 1 + 2, tail.len() as int) =~= after);
        assert(seq![s[0]] + tail.subrange(0, k - 1) =~= s.subrange(0, k));
        lemma_split_tags_nonempty(after);
        assert(spec_split_tags(s) =~~= seq![s.subrange(0, k)] + spec_split_tags(after));
    }
}

/// Split a tag string on the literal separator `", "`.
pub fn split_tags(s: &str) -> (r: Vec<String>)
    ensures
        r.deep_view() == spec_split_tags(s@),
{
    let n = s.unicode_len();
    let mut tokens: Vec<String> = Vec::new();
    let mut ts: usize = 0;
    let mut i: usize = 0;
    proof {
        assert(s@.subrange(0, n as int) =~= s@);
        assert(tokens.deep_view() =~~= Seq::<Seq<char>>::empty());
        assert(tokens.deep_view() + spec_split_tags(s@) =~~= spec_split_tags(s@));
    }
    while i < n
        invariant
            n == s@.len(),
            ts <= i <= n,
            forall|j: int| ts <= j < i ==> !sep_at(s@, j),
            spec_split_tags(s@) == tokens.deep_view() + spec_split_tags(
                s@.subrange(ts as int, n as int),
            ),
        decreases n - i,
    {
        if i + 1 < n && s.get_char(i) == ',' && s.get_char(i + 1) == ' ' {
            proof {
                let suf = s@.subrange(ts as int, n as int);
                assert(sep_at(suf, i - ts));
                assert forall|j: int| 0 <= j < i - ts implies !sep_at(suf, j) by {
                    if sep_at(suf, j) {
                        assert(s@[ts + j] == suf[j]);
                        assert(s@[ts + j + 1] == suf[j + 1]);
                        assert(sep_at(s@, ts + j));
                    }
                }
                lemma_split_tags_at_sep(suf, i - ts);
                assert(suf.subrange(0, i - ts) =~= s@.subrange(ts as int, i as int));
                assert(suf.subrange(i - ts + 2, suf.len() as int) =~= s@.subrange(
                    i + 2,
                    n as int,
                ));
            }
            let tok = s.substring_char(ts, i).to_owned();
            let ghost old_tokens = tokens.deep_view();
            tokens.push(tok);
            proof {
                assert(tokens.deep_view() =~~= old_tokens.push(s@.subrange(ts as int, i as int)));
                assert(tokens.deep_view() + spec_split_tags(s@.subrange(i + 2, n as int)) =~~= (
                old_tokens + seq![s@.subrange(ts as int, i as int)] + spec_split_tags(
                    s@.subrange(i + 2, n as int),
                )));
            }
            i = i + 2;
            ts = i;
        } else {
            proof {
                assert(!sep_at(s@, i as int));
            }
            i = i + 1;
        }
    }
    proof {
        let suf = s@.subrange(ts as int, n as int);
        assert forall|j: int| !sep_at(suf, j) by {
            if sep_at(suf, j) {
                assert(s@[ts + j] == suf[j]);
                assert(s@[ts + j + 1] == suf[j + 1]);
                assert(sep_at(s@, ts + j));
            }
        }
        lemma_split_tags_no_sep(suf);
    }
    let tok = s.substring_char(ts, n).to_owned();
    let ghost old_tokens = tokens.deep_view();
    tokens.push(tok);
    proof {
        assert(tokens.deep_view() =~~= old_tokens.push(s@.subrange(ts as int, n as int)));
        assert(tokens.deep_view() =~~= spec_split_tags(s@));
    }
    tokens
}

/// `t` wrapped in double quotes.
pub open spec fn spec_quoted(t: Seq<char>) -> Seq<char> {
    seq!['"'] + t + seq!['"']
}

/// `,"<elem>"` for each element, in order.
pub open spec fn spec_joined_rest(elems: Seq<Seq<char>>) -> Seq<char>
    decreases elems.len(),
{
    if elems.len() == 0 {
        Seq::empty()
    } else {
        seq![','] + spec_quoted(elems[0]) + spec_joined_rest(elems.drop_first())
    }
}

/// The TOML list literal: each element quoted, comma-separated with no
/// surrounding whitespace, in square brackets.
pub open spec fn spec_list_toml(elems: Seq<Seq<char>>) -> Seq<char> {
    if elems.len() == 0 {
        seq!['[', ']']
    } else {
        seq!['['] + spec_quoted(elems[0]) + spec_joined_rest(elems.drop_first()) + seq![']']
    }
}

/// Render strings as a TOML list literal of quoted elements.
pub fn print_list_toml(elements: Vec<&str>) -> (r: String)
    ensures
        r@ == spec_list_toml(elements.deep_view()),
{
    let ghost es = elements.deep_view();
    proof {
        assert(es.len() == elements@.len());
    }
    let mut buf = String::new();
    buf.append("[");
    proof {
        reveal_strlit("[");
    }
    if elements.len() > 0 {
        buf.append("\"");
        buf.append(elements[0]);
        buf.append("\"");
        proof {
            reveal_strlit("\"");
            assert(elements[0 as int].deep_view() == es[0]);
            assert(buf@ =~= seq!['['] + spec_quoted(es[0]));
            assert(buf@ + spec_joined_rest(es.subrange(1, es.len() as int)) + seq![']']
                =~= spec_list_toml(es)) by {
                assert(es.drop_first() =~~= es.subrange(1, es.len() as int));
            }
        }
        let mut i: usize = 1;
        while i < elements.len()
            invariant
                1 <= i <= elements.len(),
                es == elements.deep_view(),
                es.len() == elements@.len(),
                buf@ + spec_joined_rest(es.subrange(i as int, es.len() as int)) + seq![']']
                    == spec_list_toml(es),
            decreases elements.len() - i,
        {
            let ghost pre = buf@;
            buf.append(",\"");
            buf.append(elements[i]);
            buf.append("\"");
            proof {
                reveal_strlit(",\"");
                reveal_strlit("\"");
                let rest = es.subrange(i as int, es.len() as int);
                assert(elements[i as int].deep_view() == es[i as int]);
                assert(rest[0] == es[i as int]);
                assert(rest.drop_first() =~~= es.subrange(i + 1, es.len() as int));
                assert(buf@ =~= pre + seq![','] + spec_quoted(es[i as int]));
                assert(buf@ + spec_joined_rest(es.subrange(i + 1, es.len() as int)) + seq![']']
                    =~= pre + spec_joined_rest(rest) + seq![']']);
            }
            i += 1;
        }
        proof {
            assert(es.subrange(i as int, es.len() as int).len() == 0);
        }
    } else {
        proof {
            assert(es.len() == 0);
        }
    }
    buf.append("]");
    proof {
        reveal_strlit("]");
        assert(buf@ =~= spec_list_toml(es));
    }
    buf
}

/// Render a comma-and-space separated tag string as a TOML list literal,
/// tags in their original left-to-right order.
pub fn print_tags_as_toml(tags: &String) -> (r: String)
    ensures
        r@ == spec_list_toml(spec_split_tags(tags@)),
{
    let tag_vec = split_tags(tags.as_str());
    let mut refs: Vec<&str> = Vec::new();
    let mut i: usize = 0;
    while i < tag_vec.len()
        invariant
            i <= tag_vec.len(),
            tag_vec.deep_view() == spec_split_tags(tags@),
            refs.deep_view() == tag_vec.deep_view().subrange(0, i as int),
        decreases tag_vec.len() - i,
    {
        let ghost old_refs = refs.deep_view();
        refs.push(tag_vec[i].as_str());
        proof {
            assert(tag_vec[i as int].deep_view() == tag_vec.deep_view()[i as int]);
            assert(refs.deep_view() =~~= old_refs.push(tag_vec.deep_view()[i as int]));
            assert(refs.deep_view() =~~= tag_vec.deep_view().subrange(0, i + 1));
        }
        i += 1;
    }
    proof {
        assert(refs.deep_view() =~~= tag_vec.deep_view());
    }
    print_list_toml(refs)
}

/// `"` and `\` get a backslash put before them; every other character
/// passes through unchanged.
pub open spec fn spec_escaped(s: Seq<char>) -> Seq<char>
    decreases s.len(),
{
    if s.len() == 0 {
        Seq::empty()
    } else {
        (if s[0] == '"' || s[0] == '\\' {
            seq!['\\', s[0]]
        } else {
            seq![s[0]]
        }) + spec_escaped(s.drop_first())
    }
}

/// Escape a string for use inside a double-quoted TOML literal.
pub fn escape_toml_string(s: &str) -> (r: String)
    ensures
        r@ == spec_escaped(s@),
{
    let n = s.unicode_len();
    let mut buf = String::new();
    let mut i: usize = 0;
    proof {
        assert(s@.subrange(0, n as int) =~= s@);
        assert(buf@ + spec_escaped(s@) =~= spec_escaped(s@));
    }
    while i < n
        invariant
            n == s@.len(),
            i <= n,
            buf@ + spec_escaped(s@.subrange(i as int, n as int)) == spec_escaped(s@),
        decreases n - i,
    {
        let ghost pre = buf@;
        let c = s.get_char(i);
        if c == '"' || c == '\\' {
            buf.append("\\");
            proof {
                reveal_strlit("\\");
            }
        }
        buf.append(s.substring_char(i, i + 1));
        proof {
            let suf = s@.subrange(i as int, n as int);
            assert(suf.drop_first() =~= s@.subrange(i + 1, n as int));
            assert(s@.subrange(i as int, i + 1) =~= seq![s@[i as int]]);
            assert(suf[0] == s@[i as int]);
            if c == '"' || c == '\\' {
                assert(buf@ =~= pre + seq!['\\', s@[i as int]]);
            } else {
                assert(buf@ =~= pre + seq![s@[i as int]]);
            }
            assert(buf@ + spec_escaped(s@.subrange(i + 1, n as int)) =~= pre + spec_escaped(suf));
        }
        i += 1;
    }
    proof {
        assert(s@.subrange(n as int, n as int).len() == 0);
        assert(buf@ =~= spec_escaped(s@));
    }
    buf
}

} // verus!
