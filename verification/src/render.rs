//! The rank renderer: a pure transform from a ranked list of
//! (label, score) items into a textual block, one line per item.

use vstd::prelude::*;
use crate::numfmt::{digit_char, spec_udec, spec_idec, u64_to_string, i64_to_string};

verus! {

/// One rendered line: `"{rank}. {label}: {score}"`.
pub open spec fn spec_line(rank: nat, label: Seq<char>, score: int) -> Seq<char> {
    spec_udec(rank) + seq!['.', ' '] + label + seq![':', ' '] + spec_idec(score)
}

/// The rendered text of `items` when the first item has rank `r0`:
/// the lines in order, separated by newlines, no trailing newline.
pub open spec fn spec_render_from(items: Seq<(Seq<char>, int)>, r0: nat) -> Seq<char>
    decreases items.len(),
{
    if items.len() == 0 {
        Seq::empty()
    } else if items.len() == 1 {
        spec_line(r0, items[0].0, items[0].1)
    } else {
        spec_line(r0, items[0].0, items[0].1) + seq!['\n'] + spec_render_from(
            items.drop_first(),
            r0 + 1,
        )
    }
}

/// The rendered text of `items`, ranks counted from 1.
pub open spec fn spec_render(items: Seq<(Seq<char>, int)>) -> Seq<char> {
    spec_render_from(items, 1)
}

/// The (label, score) items that a vector of (label, score) pairs stands for.
pub open spec fn view_items(items: Seq<(String, i64)>) -> Seq<(Seq<char>, int)> {
    items.map_values(|p: (String, i64)| (p.0@, p.1 as int))
}

proof fn lemma_render_from_snoc(items: Seq<(Seq<char>, int)>, x: (Seq<char>, int), r0: nat)
    ensures
        spec_render_from(items.push(x), r0) == if items.len() == 0 {
            spec_line(r0, x.0, x.1)
        } else {
            spec_render_from(items, r0) + seq!['\n'] + spec_line(
                (r0 + items.len()) as nat,
                x.0,
                x.1,
            )
        },
    decreases items.len(),
{
    if items.len() == 0 {
        assert(items.push(x).len() == 1);
        assert(items.push(x)[0] == x);
    } else {
        let s = items.push(x);
        assert(s.len() >= 2);
        assert(s[0] == items[0]);
        assert(s.drop_first() =~= items.drop_first().push(x));
        lemma_render_from_snoc(items.drop_first(), x, r0 + 1);
        if items.len() == 1 {
            assert(spec_render_from(s, r0) == spec_line(r0, items[0].0, items[0].1) + seq!['\n']
                + spec_line(r0 + 1, x.0, x.1));
        } else {
            assert(spec_render_from(s.drop_first(), r0 + 1) == spec_render_from(
                items.drop_first(),
                r0 + 1,
            ) + seq!['\n'] + spec_line((r0 + items.len()) as nat, x.0, x.1));
            assert(spec_render_from(s, r0) =~= spec_render_from(items, r0) + seq!['\n']
                + spec_line((r0 + items.len()) as nat, x.0, x.1));
        }
    }
}

/// Turns ranked (label, score) items into the display text: one line per
/// item, `"{rank}. {label}: {score}"` where rank is the item's 1-based
/// position, lines separated by newlines.  An empty list renders as the
/// empty text.
pub fn render(items: &Vec<(String, i64)>) -> (text: String)
    ensures
        text@ == spec_render(view_items(items@)),
{
    let ghost all = view_items(items@);
    let mut text = String::new();
    let mut idx: usize = 0;
    while idx < items.len()
        invariant
            idx <= items@.len(),
            all == view_items(items@),
            text@ == spec_render(all.take(idx as int)),
        decreases items@.len() - idx,
    {
        proof {
            reveal_strlit("\n");
            reveal_strlit(". ");
            reveal_strlit(": ");
            assert("\n"@ =~= seq!['\n']);
            assert(". "@ =~= seq!['.', ' ']);
            assert(": "@ =~= seq![':', ' ']);
        }
        if idx > 0 {
            text.append("\n");
        }
        let rank: u64 = (idx as u64) + 1;
        let rank_s = u64_to_string(rank);
        text.append(rank_s.as_str());
        text.append(". ");
        text.append(items[idx].0.as_str());
        text.append(": ");
        let score_s = i64_to_string(items[idx].1);
        text.append(score_s.as_str());
        proof {
            let prefix = all.take(idx as int);
            lemma_render_from_snoc(prefix, all[idx as int], 1);
            assert(prefix.push(all[idx as int]) =~= all.take(idx + 1));
            assert(all[idx as int].0 == items@[idx as int].0@);
            assert(all[idx as int].1 == items@[idx as int].1 as int);
            if idx == 0 {
                assert(text@ =~= spec_line(1, all[0].0, all[0].1));
            } else {
                assert(text@ =~= spec_render_from(prefix, 1) + seq!['\n'] + spec_line(
                    (1 + prefix.len()) as nat,
                    all[idx as int].0,
                    all[idx as int].1,
                ));
            }
        }
        idx = idx + 1;
    }
    proof {
        assert(all.take(items@.len() as int) =~= all);
    }
    text
}

/// The lines of `s`: the maximal newline-free pieces, with the empty text
/// having no lines at all.
pub open spec fn split_lines(s: Seq<char>) -> Seq<Seq<char>> {
    if s.len() == 0 {
        Seq::empty()
    } else {
        split_rec(s)
    }
}

/// Splits nonempty-or-empty `s` at every newline; always yields at least
/// one piece, so that `"a\n"` has a trailing empty piece.
pub open spec fn split_rec(s: Seq<char>) -> Seq<Seq<char>>
    decreases s.len(),
{
    if s.len() == 0 {
        seq![Seq::<char>::empty()]
    } else if s[0] == '\n' {
        seq![Seq::<char>::empty()] + split_rec(s.drop_first())
    } else {
        let rest = split_rec(s.drop_first());
        seq![seq![s[0]] + rest[0]] + rest.drop_first()
    }
}

proof fn lemma_split_rec_len(s: Seq<char>)
    ensures
        split_rec(s).len() >= 1,
    decreases s.len(),
{
    if s.len() != 0 {
        lemma_split_rec_len(s.drop_first());
    }
}

proof fn lemma_split_no_sep(s: Seq<char>)
    requires
        forall|i: int| 0 <= i < s.len() ==> s[i] != '\n',
    ensures
        split_rec(s) == seq![s],
    decreases s.len(),
{
    if s.len() == 0 {
        assert(s =~= Seq::<char>::empty());
        assert(split_rec(s) =~= seq![s]);
    } else {
        assert(forall|i: int| 0 <= i < s.drop_first().len() ==> s.drop_first()[i] != '\n');
        lemma_split_no_sep(s.drop_first());
        let rest = split_rec(s.drop_first());
        assert(rest == seq![s.drop_first()]);
        assert(seq![s[0]] + rest[0] =~= s);
        assert(rest.drop_first() =~= Seq::<Seq<char>>::empty());
        assert(split_rec(s) == seq![seq![s[0]] + rest[0]] + rest.drop_first());
        assert(split_rec(s) =~= seq![s]);
    }
}

proof fn lemma_split_append(a: Seq<char>, b: Seq<char>)
    requires
        forall|i: int| 0 <= i < a.len() ==> a[i] != '\n',
    ensures
        split_rec(a + seq!['\n'] + b) == seq![a] + split_rec(b),
    decreases a.len(),
{
    let s = a + seq!['\n'] + b;
    if a.len() == 0 {
        assert(s[0] == '\n');
        assert(s.drop_first() =~= b);
        assert(a =~= Seq::<char>::empty());
        assert(split_rec(s) == seq![Seq::<char>::empty()] + split_rec(b));
        assert(split_rec(s) =~= seq![a] + split_rec(b));
    } else {
        assert(s[0] == a[0]);
        assert(s[0] != '\n');
        assert(forall|i: int| 0 <= i < a.drop_first().len() ==> a.drop_first()[i] != '\n');
        lemma_split_append(a.drop_first(), b);
        assert(s.drop_first() =~= a.drop_first() + seq!['\n'] + b);
        let rest = split_rec(s.drop_first());
        assert(rest == seq![a.drop_first()] + split_rec(b));
        lemma_split_rec_len(b);
        assert(rest[0] == a.drop_first());
        assert(seq![s[0]] + rest[0] =~= a);
        assert(rest.drop_first() =~= split_rec(b));
        assert(split_rec(s) == seq![seq![s[0]] + rest[0]] + rest.drop_first());
        assert(split_rec(s) =~= seq![a] + split_rec(b));
    }
}

/// Holds when `s` contains no newline character.
pub open spec fn newline_free(s: Seq<char>) -> bool {
    forall|j: int| 0 <= j < s.len() ==> s[j] != '\n'
}

proof fn lemma_newline_free_concat(a: Seq<char>, b: Seq<char>)
    requires
        newline_free(a),
        newline_free(b),
    ensures
        newline_free(a + b),
{
    assert forall|i: int| 0 <= i < (a + b).len() implies (a + b)[i] != '\n' by {
        if i < a.len() {
            assert((a + b)[i] == a[i]);
        } else {
            assert((a + b)[i] == b[i - a.len()]);
        }
    }
}

proof fn lemma_udec_no_newline(n: nat)
    ensures
        newline_free(spec_udec(n)),
    decreases n,
{
    if n < 10 {
        assert forall|i: int| 0 <= i < spec_udec(n).len() implies spec_udec(n)[i] != '\n' by {
            assert(spec_udec(n)[i] == digit_char(n as int));
        }
    } else {
        lemma_udec_no_newline(n / 10);
        let d = seq![digit_char((n % 10) as int)];
        assert(newline_free(d)) by {
            assert(d[0] == digit_char((n % 10) as int));
        }
        lemma_newline_free_concat(spec_udec(n / 10), d);
    }
}

proof fn lemma_idec_no_newline(v: int)
    ensures
        newline_free(spec_idec(v)),
{
    if v < 0 {
        lemma_udec_no_newline((-v) as nat);
        assert(newline_free(seq!['-'])) by {
            assert(seq!['-'][0] == '-');
        }
        lemma_newline_free_concat(seq!['-'], spec_udec((-v) as nat));
    } else {
        lemma_udec_no_newline(v as nat);
    }
}

proof fn lemma_line_no_newline(rank: nat, label: Seq<char>, score: int)
    requires
        newline_free(label),
    ensures
        newline_free(spec_line(rank, label, score)),
{
    lemma_udec_no_newline(rank);
    lemma_idec_no_newline(score);
    assert(newline_free(seq!['.', ' '])) by {
        assert(seq!['.', ' '][0] == '.');
        assert(seq!['.', ' '][1] == ' ');
    }
    assert(newline_free(seq![':', ' '])) by {
        assert(seq![':', ' '][0] == ':');
        assert(seq![':', ' '][1] == ' ');
    }
    lemma_newline_free_concat(spec_udec(rank), seq!['.', ' ']);
    lemma_newline_free_concat(spec_udec(rank) + seq!['.', ' '], label);
    lemma_newline_free_concat(spec_udec(rank) + seq!['.', ' '] + label, seq![':', ' ']);
    lemma_newline_free_concat(
        spec_udec(rank) + seq!['.', ' '] + label + seq![':', ' '],
        spec_idec(score),
    );
}

proof fn lemma_render_from_lines(items: Seq<(Seq<char>, int)>, r0: nat)
    requires
        items.len() > 0,
        forall|i: int| 0 <= i < items.len() ==> newline_free(#[trigger] items[i].0),
    ensures
        split_rec(spec_render_from(items, r0)).len() == items.len(),
        forall|i: int|
            0 <= i < items.len() ==> split_rec(spec_render_from(items, r0))[i] == spec_line(
                (r0 + i) as nat,
                items[i].0,
                items[i].1,
            ),
    decreases items.len(),
{
    if items.len() == 1 {
        lemma_line_no_newline(r0, items[0].0, items[0].1);
        lemma_split_no_sep(spec_line(r0, items[0].0, items[0].1));
    } else {
        let line0 = spec_line(r0, items[0].0, items[0].1);
        let rest_text = spec_render_from(items.drop_first(), r0 + 1);
        lemma_line_no_newline(r0, items[0].0, items[0].1);
        lemma_split_append(line0, rest_text);
        assert(line0 + seq!['\n'] + rest_text =~= spec_render_from(items, r0));
        lemma_render_from_lines(items.drop_first(), r0 + 1);
        let s = split_rec(spec_render_from(items, r0));
        assert(s == seq![line0] + split_rec(rest_text));
        assert forall|i: int| 0 <= i < items.len() implies s[i] == spec_line(
            (r0 + i) as nat,
            items[i].0,
            items[i].1,
        ) by {
            if i > 0 {
                assert(s[i] == split_rec(rest_text)[i - 1]);
                assert(items.drop_first()[i - 1] == items[i]);
            }
        }
    }
}

proof fn lemma_render_nonempty(items: Seq<(Seq<char>, int)>, r0: nat)
    requires
        items.len() > 0,
    ensures
        spec_render_from(items, r0).len() > 0,
{
    assert(spec_udec(r0).len() >= 1);
}

/// Law: the rendered text of `items` has exactly one line per item, and the
/// line at position `i` is `"{i+1}. {label_i}: {score_i}"`, which starts
/// with the 1-based rank in decimal followed by a '.'.  Labels are asked to
/// be newline-free, else a label would itself add lines.
pub proof fn lemma_render_lines(items: Seq<(Seq<char>, int)>)
    requires
        forall|i: int| 0 <= i < items.len() ==> newline_free(#[trigger] items[i].0),
    ensures
        split_lines(spec_render(items)).len() == items.len(),
        forall|i: int|
            0 <= i < items.len() ==> split_lines(spec_render(items))[i] == spec_line(
                (i + 1) as nat,
                items[i].0,
                items[i].1,
            ),
        forall|i: int|
            0 <= i < items.len() ==> (spec_udec((i + 1) as nat) + seq!['.']).is_prefix_of(
                split_lines(spec_render(items))[i],
            ),
{
    if items.len() == 0 {
        assert(spec_render(items).len() == 0);
    } else {
        lemma_render_nonempty(items, 1);
        lemma_render_from_lines(items, 1);
        assert forall|i: int| 0 <= i < items.len() implies (spec_udec((i + 1) as nat)
            + seq!['.']).is_prefix_of(split_lines(spec_render(items))[i]) by {
            let line = spec_line((i + 1) as nat, items[i].0, items[i].1);
            let p = spec_udec((i + 1) as nat) + seq!['.'];
            assert(line.subrange(0, p.len() as int) =~= p);
        }
    }
}

} // verus!
