//! What holds of texts and paths, whatever they hold.

use vstd::prelude::*;
use crate::host_path;
use crate::shell_ir;
use crate::shell_ir::ShellIrError;
use crate::text;
use crate::text_case;
use crate::text_map;
use crate::text_order;

verus! {

/// Pieces with one character between every two neighbours.
pub open spec fn joined(pieces: Seq<Seq<char>>, c: char) -> Seq<char>
    decreases pieces.len(),
{
    if pieces.len() == 0 {
        Seq::empty()
    } else if pieces.len() == 1 {
        pieces[0]
    } else {
        joined(pieces.drop_last(), c).push(c) + pieces.last()
    }
}

/// Whether a text holds none of some characters.
pub open spec fn is_free_of(s: Seq<char>, separators: Seq<char>) -> bool {
    forall|i: int| 0 <= i < s.len() ==> !separators.contains(#[trigger] s[i])
}

/// Whether no piece holds any of some characters.
pub open spec fn all_free_of(pieces: Seq<Seq<char>>, separators: Seq<char>) -> bool {
    forall|i: int| 0 <= i < pieces.len() ==> is_free_of(#[trigger] pieces[i], separators)
}

proof fn lemma_split_behind(a: Seq<char>, b: Seq<char>, separators: Seq<char>)
    requires
        is_free_of(b, separators),
    ensures
        text::split(a + b, separators) == text::split(a, separators).drop_last().push(
            text::split(a, separators).last() + b,
        ),
    decreases b.len(),
{
    text::lemma_split_nonempty(a, separators);
    let pieces = text::split(a, separators);
    if b.len() == 0 {
        assert(a + b =~= a);
        assert(pieces.last() + b =~= pieces.last());
        assert(pieces.drop_last().push(pieces.last()) =~= pieces);
    } else {
        let rest = b.drop_last();
        assert(is_free_of(rest, separators)) by {
            assert forall|i: int| 0 <= i < rest.len() implies !separators.contains(
                #[trigger] rest[i],
            ) by {
                assert(rest[i] == b[i]);
            }
        }
        lemma_split_behind(a, rest, separators);
        assert((a + b).drop_last() =~= a + rest);
        assert((a + b).last() == b.last());
        assert(!separators.contains(b[b.len() - 1]));
        let before = text::split(a + rest, separators);
        assert(before.drop_last() =~= pieces.drop_last());
        assert(before.last().push(b.last()) =~= pieces.last() + b);
    }
}

/// Splitting undoes joining: pieces that hold no separator, joined by one, are
/// what the joined text splits into, in order, none lost and none merged.
pub proof fn splitting_undoes_joining(pieces: Seq<Seq<char>>, c: char, separators: Seq<char>)
    requires
        pieces.len() > 0,
        separators.contains(c),
        all_free_of(pieces, separators),
    ensures
        text::split(joined(pieces, c), separators) == pieces,
    decreases pieces.len(),
{
    let last = pieces.last();
    assert(is_free_of(pieces[pieces.len() - 1], separators));
    if pieces.len() == 1 {
        lemma_split_behind(Seq::empty(), last, separators);
        assert(Seq::<char>::empty() + last =~= last);
        assert(text::split(Seq::empty(), separators) =~= seq![Seq::<char>::empty()]);
        assert(text::split(last, separators) =~= pieces);
    } else {
        let rest = pieces.drop_last();
        assert(all_free_of(rest, separators)) by {
            assert forall|i: int| 0 <= i < rest.len() implies is_free_of(
                #[trigger] rest[i],
                separators,
            ) by {
                assert(rest[i] == pieces[i]);
            }
        }
        splitting_undoes_joining(rest, c, separators);
        let start = joined(rest, c).push(c);
        assert(start.drop_last() =~= joined(rest, c));
        assert(text::split(start, separators) == rest.push(Seq::empty()));
        lemma_split_behind(start, last, separators);
        assert(rest.push(Seq::<char>::empty()).drop_last() =~= rest);
        assert(Seq::<char>::empty() + last =~= last);
        assert(rest.push(last) =~= pieces);
    }
}

/// Joining undoes splitting: no piece of a text holds the separator, and the
/// pieces with the separator between them are the text again.
pub proof fn joining_undoes_splitting(s: Seq<char>, c: char)
    ensures
        joined(text::split(s, seq![c]), c) == s,
        all_free_of(text::split(s, seq![c]), seq![c]),
    decreases s.len(),
{
    let only = seq![c];
    assert(only.contains(c)) by {
        assert(only[0] == c);
    }
    if s.len() == 0 {
    } else {
        let rest = s.drop_last();
        joining_undoes_splitting(rest, c);
        text::lemma_split_nonempty(rest, only);
        let before = text::split(rest, only);
        let pieces = text::split(s, only);
        if only.contains(s.last()) {
            assert(s.last() == c);
            assert(pieces.drop_last() =~= before);
            assert(joined(pieces, c) =~= s);
        } else {
            lemma_join_extended(before, s.last(), c);
            assert(joined(pieces, c) =~= s);
            assert forall|i: int| 0 <= i < pieces.len() implies is_free_of(
                #[trigger] pieces[i],
                only,
            ) by {
                assert(is_free_of(before[i], only));
                if i == pieces.len() - 1 {
                    let piece = pieces[i];
                    assert forall|j: int| 0 <= j < piece.len() implies !only.contains(
                        #[trigger] piece[j],
                    ) by {
                        if j < before[i].len() {
                            assert(piece[j] == before[i][j]);
                        }
                    }
                }
            }
        }
    }
}

proof fn lemma_join_extended(pieces: Seq<Seq<char>>, more: char, c: char)
    requires
        pieces.len() > 0,
    ensures
        joined(pieces.drop_last().push(pieces.last().push(more)), c) == joined(pieces, c).push(
            more,
        ),
{
    let longer = pieces.drop_last().push(pieces.last().push(more));
    assert(longer.drop_last() =~= pieces.drop_last());
    if pieces.len() > 1 {
        assert(joined(longer, c) =~= joined(pieces, c).push(more));
    }
}

/// A trimmed text is the text without the white space around it: what is cut
/// off is white space, and neither end of what is left is.
pub proof fn trimming_cuts_white_space_only(s: Seq<char>)
    ensures
        ({
            let kept = text::trimmed(s);
            &&& exists|front: Seq<char>, back: Seq<char>|
                {
                    &&& s == front + kept + back
                    &&& #[trigger] is_blank(front)
                    &&& #[trigger] is_blank(back)
                }
            &&& kept.len() > 0 ==> !text::white_space(kept[0]) && !text::white_space(kept.last())
        }),
{
    lemma_leading(s);
    let rest = text::without_leading(s);
    lemma_trailing(rest);
    let kept = text::trimmed(s);
    let front = s.take(s.len() - rest.len());
    let back = rest.skip(kept.len() as int);
    assert(is_blank(front) && is_blank(back));
    assert(s =~= front + rest);
    assert(rest =~= kept + back);
    assert(s =~= front + kept + back);
    if kept.len() > 0 {
        assert(kept[0] == rest[0]);
    }
}

/// Whether a text is nothing but white space.
pub open spec fn is_blank(s: Seq<char>) -> bool {
    forall|i: int| 0 <= i < s.len() ==> text::white_space(#[trigger] s[i])
}

proof fn lemma_leading(s: Seq<char>)
    ensures
        ({
            let rest = text::without_leading(s);
            &&& rest.len() <= s.len()
            &&& s.skip(s.len() - rest.len()) == rest
            &&& is_blank(s.take(s.len() - rest.len()))
            &&& rest.len() > 0 ==> !text::white_space(rest[0])
        }),
    decreases s.len(),
{
    let rest = text::without_leading(s);
    if s.len() > 0 && text::white_space(s[0]) {
        lemma_leading(s.skip(1));
        let n = s.len() - rest.len();
        assert(s.skip(n) =~= s.skip(1).skip(n - 1));
        assert forall|i: int| 0 <= i < n implies text::white_space(#[trigger] s.take(n)[i]) by {
            if i > 0 {
                assert(s.skip(1).take(n - 1)[i - 1] == s[i]);
            }
        }
    } else {
        assert(s.skip(0) =~= s);
    }
}

proof fn lemma_trailing(s: Seq<char>)
    ensures
        ({
            let rest = text::without_trailing(s);
            &&& rest.len() <= s.len()
            &&& s.take(rest.len() as int) == rest
            &&& is_blank(s.skip(rest.len() as int))
            &&& rest.len() > 0 ==> !text::white_space(rest.last())
        }),
    decreases s.len(),
{
    let rest = text::without_trailing(s);
    if s.len() > 0 && text::white_space(s.last()) {
        lemma_trailing(s.drop_last());
        assert(s.take(rest.len() as int) =~= s.drop_last().take(rest.len() as int));
        let tail = s.skip(rest.len() as int);
        assert forall|i: int| 0 <= i < tail.len() implies text::white_space(#[trigger] tail[i]) by {
            if i < tail.len() - 1 {
                assert(s.drop_last().skip(rest.len() as int)[i] == tail[i]);
            }
        }
    } else {
        assert(s.take(s.len() as int) =~= s);
    }
}

/// White space in front of a text is cut off.
pub proof fn lemma_blank_front(front: Seq<char>, rest: Seq<char>)
    requires
        is_blank(front),
    ensures
        text::without_leading(front + rest) == text::without_leading(rest),
    decreases front.len(),
{
    if front.len() > 0 {
        let less = front.skip(1);
        assert forall|i: int| 0 <= i < less.len() implies text::white_space(#[trigger] less[i]) by {
            assert(less[i] == front[i + 1]);
        }
        lemma_blank_front(less, rest);
        assert((front + rest)[0] == front[0]);
        assert((front + rest).skip(1) =~= less + rest);
    } else {
        assert(front + rest =~= rest);
    }
}

proof fn lemma_blank_back(rest: Seq<char>, back: Seq<char>)
    requires
        is_blank(back),
    ensures
        text::without_trailing(rest + back) == text::without_trailing(rest),
    decreases back.len(),
{
    if back.len() > 0 {
        let less = back.drop_last();
        assert forall|i: int| 0 <= i < less.len() implies text::white_space(#[trigger] less[i]) by {
            assert(less[i] == back[i]);
        }
        lemma_blank_back(rest, less);
        assert((rest + back).last() == back.last());
        assert(text::white_space(back[back.len() - 1]));
        assert((rest + back).drop_last() =~= rest + less);
    } else {
        assert(rest + back =~= rest);
    }
}

/// White space around a text is trimmed, and the text is left.
pub proof fn white_space_around_a_text_is_trimmed(
    front: Seq<char>,
    kept: Seq<char>,
    back: Seq<char>,
)
    requires
        is_blank(front),
        is_blank(back),
        kept.len() > 0 ==> !text::white_space(kept[0]) && !text::white_space(kept.last()),
    ensures
        text::trimmed(front + kept + back) == kept,
{
    assert(front + kept + back =~= front + (kept + back));
    lemma_blank_front(front, kept + back);
    if kept.len() > 0 {
        assert((kept + back)[0] == kept[0]);
        lemma_blank_back(kept, back);
    } else {
        assert(kept + back =~= back + kept);
        lemma_blank_front(back, kept);
        assert(kept =~= Seq::empty());
    }
}

/// The blanks of ASCII are white space, and no character that prints is; beyond
/// ASCII the spaces and the separators of lines and paragraphs are, up to the
/// ideographic space.
pub proof fn blanks_are_white_space(c: char)
    ensures
        c == ' ' || c == '\t' || c == '\n' || c == '\r' ==> text::white_space(c),
        c == '\u{b}' || c == '\u{c}' || c == '\u{85}' || c == '\u{a0}' || c == '\u{1680}'
            ==> text::white_space(c),
        '\u{2000}' <= c <= '\u{200a}' || c == '\u{2028}' || c == '\u{2029}' ==> text::white_space(c),
        c == '\u{202f}' || c == '\u{205f}' || c == '\u{3000}' ==> text::white_space(c),
        '!' <= c <= '~' ==> !text::white_space(c),
        '\u{a1}' <= c <= '\u{167f}' || '\u{1681}' <= c <= '\u{1fff}' || '\u{200b}' <= c
            <= '\u{2027}' ==> !text::white_space(c),
        '\u{202a}' <= c <= '\u{202e}' || '\u{2030}' <= c <= '\u{205e}' || '\u{2060}' <= c
            <= '\u{2fff}' || c > '\u{3000}' ==> !text::white_space(c),
        '\u{e}' <= c <= '\u{1f}' || '\u{7f}' <= c <= '\u{84}' || '\u{86}' <= c <= '\u{9f}'
            ==> !text::white_space(c),
        c == '\0' ==> !text::white_space(c),
{
}

/// The number that decimal digits write.
pub open spec fn number_of(digits: Seq<char>) -> nat
    decreases digits.len(),
{
    if digits.len() == 0 {
        0
    } else {
        number_of(digits.drop_last()) * 10 + (digits.last() as nat - '0' as nat) as nat
    }
}

/// The decimal text of a number is made of digits, has no leading zero, and is
/// read as that number again.
pub proof fn decimals_write_the_number(n: nat)
    ensures
        text::decimal(n).len() > 0,
        number_of(text::decimal(n)) == n,
        forall|i: int| 0 <= i < text::decimal(n).len() ==> '0' <= #[trigger] text::decimal(n)[i] <= '9',
        text::decimal(n).len() > 1 ==> text::decimal(n)[0] != '0',
    decreases n,
{
    let digits = text::decimal(n);
    let last = text::decimal_digit(n as int % 10);
    assert(last as int == '0' as int + n as int % 10);
    if n < 10 {
        assert(digits.drop_last() =~= Seq::empty());
        assert(digits.last() == last);
        reveal_with_fuel(number_of, 2);
    } else {
        assert(digits.last() == last);
        decimals_write_the_number(n / 10);
        assert(digits.drop_last() =~= text::decimal(n / 10));
        if n / 10 < 10 {
            let first = text::decimal_digit((n / 10) as int);
            assert(first as int == '0' as int + (n / 10) as int);
            assert(text::decimal(n / 10)[0] == first);
            assert(digits[0] == first);
        } else {
            decimals_write_the_number(n / 10 / 10);
            assert(text::decimal(n / 10).len() > 1);
            assert(digits[0] == text::decimal(n / 10)[0]);
        }
        assert forall|i: int| 0 <= i < digits.len() implies '0' <= #[trigger] digits[i] <= '9' by {
            if i < digits.len() - 1 {
                assert(digits[i] == text::decimal(n / 10)[i]);
            }
        }
    }
}

/// Texts are ordered by the first character in which they differ, and a text
/// comes before its extensions.
pub proof fn texts_are_ordered_by_their_first_difference(
    start: Seq<char>,
    a: Seq<char>,
    b: Seq<char>,
)
    requires
        a.len() > 0 || b.len() > 0,
        a.len() > 0 && b.len() > 0 ==> a[0] != b[0],
    ensures
        text_order::before(start + a, start + b) == (b.len() > 0 && (a.len() == 0 || a[0] < b[0])),
    decreases start.len(),
{
    if start.len() == 0 {
        assert(start + a =~= a);
        assert(start + b =~= b);
    } else {
        assert((start + a).skip(1) =~= start.skip(1) + a);
        assert((start + b).skip(1) =~= start.skip(1) + b);
        texts_are_ordered_by_their_first_difference(start.skip(1), a, b);
    }
}

/// A sorted list holds the texts of the list, each as often, and none of them
/// comes before an earlier one.
pub proof fn sorted_lists_hold_the_same_in_order(sorted: Seq<Seq<char>>, list: Seq<Seq<char>>)
    requires
        text_order::is_sorted_form(sorted, list),
    ensures
        sorted.to_multiset() == list.to_multiset(),
        sorted == text_order::sorted(list),
        forall|i: int, j: int|
            0 <= i < j < sorted.len() ==> !text_order::before(
                #[trigger] sorted[j],
                #[trigger] sorted[i],
            ),
{
    text_order::lemma_sorted_unique(sorted, text_order::sorted(list));
}

/// A text is held where it stands in the other, and only there.
pub proof fn texts_hold_their_parts(front: Seq<char>, part: Seq<char>, back: Seq<char>)
    ensures
        text::holds_text(front + part + back, part),
{
    let s = front + part + back;
    assert(s.subrange(front.len() as int, front.len() as int + part.len()) =~= part);
    assert(text::stands_at(s, part, front.len() as int));
}

/// What is held stands between what is before and behind it.
pub proof fn held_texts_stand_somewhere(s: Seq<char>, part: Seq<char>)
    requires
        text::holds_text(s, part),
    ensures
        exists|front: Seq<char>, back: Seq<char>| #[trigger] (front + part + back) == s,
{
    let i = choose|i: int| text::stands_at(s, part, i);
    let front = s.take(i);
    let back = s.skip(i + part.len());
    assert(front + part + back =~= s);
}

/// Lower case changes the letters `A` to `Z` to `a` to `z`, one for one, and
/// nothing else; upper case undoes that.
pub proof fn lower_case_changes_letters_only(s: Seq<char>, i: int)
    requires
        0 <= i < s.len(),
    ensures
        ({
            let lower = text_case::ascii_lower(s);
            let upper = text_case::ascii_upper(s);
            &&& lower.len() == s.len() && upper.len() == s.len()
            &&& 'A' <= s[i] <= 'Z' ==> lower[i] as int == s[i] as int + ('a' as int - 'A' as int)
                && upper[i] == s[i]
            &&& 'a' <= s[i] <= 'z' ==> upper[i] as int == s[i] as int - ('a' as int - 'A' as int)
                && lower[i] == s[i]
            &&& !('A' <= s[i] <= 'Z') && !('a' <= s[i] <= 'z') ==> lower[i] == s[i] && upper[i]
                == s[i]
        }),
{
}

/// Whether a text names an entry of a directory.
pub open spec fn is_entry_name(name: Seq<char>) -> bool {
    &&& name.len() > 0
    &&& name != "."@
    &&& name != ".."@
    &&& is_free_of(name, seq!['/', '\\', '\0'])
}

proof fn lemma_entry_free(name: Seq<char>)
    requires
        is_entry_name(name),
    ensures
        is_free_of(name, seq!['/', '\\']),
        is_free_of(name, seq!['/']),
        !name.contains('\0'),
{
    let all = seq!['/', '\\', '\0'];
    assert(all[0] == '/' && all[1] == '\\' && all[2] == '\0');
    assert forall|i: int| 0 <= i < name.len() implies (#[trigger] name[i]) != '/' && name[i] != '\\'
        && name[i] != '\0' by {
        assert(!all.contains(name[i]));
    }
}

/// A path of names leads from a directory to the entry below it that the names
/// spell, one directory after the other.
pub proof fn paths_lead_where_their_names_say(base: Seq<Seq<char>>, names: Seq<Seq<char>>)
    requires
        names.len() > 0,
        forall|i: int| 0 <= i < names.len() ==> is_entry_name(#[trigger] names[i]),
    ensures
        shell_ir::path_fault(joined(names, '/')) is None,
        host_path::resolved(base, joined(names, '/')) == Ok::<Seq<Seq<char>>, Seq<Seq<char>>>(
            base + names,
        ),
{
    let separators = shell_ir::path_separators();
    let path = joined(names, '/');
    assert(separators[0] == '/');
    assert(separators.contains('/'));
    assert(all_free_of(names, separators)) by {
        assert forall|i: int| 0 <= i < names.len() implies is_free_of(
            #[trigger] names[i],
            separators,
        ) by {
            lemma_entry_free(names[i]);
            assert(separators =~= seq!['/', '\\']);
        }
    }
    splitting_undoes_joining(names, '/', separators);
    lemma_walk_names(base, names);
    lemma_joined_names(names);
    reveal_strlit("..");
    assert(".."@ =~= shell_ir::parent_component());
    assert(!names.contains(shell_ir::parent_component())) by {
        if names.contains(shell_ir::parent_component()) {
            let i = choose|i: int|
                0 <= i < names.len() && names[i] == shell_ir::parent_component();
            assert(is_entry_name(names[i]));
        }
    }
}

proof fn lemma_joined_names(names: Seq<Seq<char>>)
    requires
        names.len() > 0,
        forall|i: int| 0 <= i < names.len() ==> is_entry_name(#[trigger] names[i]),
    ensures
        ({
            let path = joined(names, '/');
            &&& path.len() > 0
            &&& !path.contains('\0')
            &&& path[0] == names[0][0]
            &&& !shell_ir::path_separators().contains(path[0])
        }),
    decreases names.len(),
{
    let path = joined(names, '/');
    assert(is_entry_name(names[0]));
    lemma_entry_free(names[0]);
    assert(is_entry_name(names[names.len() - 1]));
    lemma_entry_free(names.last());
    assert(!seq!['/', '\\'].contains(names[0][0]));
    assert(shell_ir::path_separators() =~= seq!['/', '\\']);
    if names.len() > 1 {
        let rest = names.drop_last();
        assert forall|i: int| 0 <= i < rest.len() implies is_entry_name(#[trigger] rest[i]) by {
            assert(rest[i] == names[i]);
        }
        lemma_joined_names(rest);
        if path.contains('\0') {
            let i = choose|i: int| 0 <= i < path.len() && path[i] == '\0';
            let before = joined(rest, '/');
            if i < before.len() {
                assert(before[i] == '\0');
            } else if i > before.len() {
                assert(names.last()[i - before.len() - 1] == '\0');
            }
        }
    }
}

proof fn lemma_walk_names(base: Seq<Seq<char>>, names: Seq<Seq<char>>)
    requires
        forall|i: int| 0 <= i < names.len() ==> is_entry_name(#[trigger] names[i]),
    ensures
        host_path::walked(base, names) == Ok::<Seq<Seq<char>>, Seq<Seq<char>>>(base + names),
    decreases names.len(),
{
    if names.len() == 0 {
        assert(base + names =~= base);
    } else {
        let rest = names.drop_last();
        assert(is_entry_name(names[names.len() - 1]));
        assert forall|i: int| 0 <= i < rest.len() implies is_entry_name(#[trigger] rest[i]) by {
            assert(rest[i] == names[i]);
        }
        lemma_walk_names(base, rest);
        assert((base + rest).push(names.last()) =~= base + names);
    }
}

/// `.` and empty parts lead nowhere else, and `..` leads one directory up,
/// wherever they stand; above the root directory there is nothing.
pub proof fn dots_lead_nowhere_or_up(
    base: Seq<Seq<char>>,
    parts: Seq<Seq<char>>,
    reached: Seq<Seq<char>>,
)
    requires
        host_path::walked(base, parts) == Ok::<Seq<Seq<char>>, Seq<Seq<char>>>(reached),
    ensures
        host_path::walked(base, parts.push("."@)) == Ok::<Seq<Seq<char>>, Seq<Seq<char>>>(reached),
        host_path::walked(base, parts.push(Seq::empty())) == Ok::<Seq<Seq<char>>, Seq<Seq<char>>>(
            reached,
        ),
        reached.len() > 0 ==> host_path::walked(base, parts.push(".."@)) == Ok::<
            Seq<Seq<char>>,
            Seq<Seq<char>>,
        >(reached.drop_last()),
        reached.len() == 0 ==> host_path::walked(base, parts.push(".."@)) == Err::<
            Seq<Seq<char>>,
            Seq<Seq<char>>,
        >(reached),
{
    reveal_strlit(".");
    reveal_strlit("..");
    assert(parts.push("."@).drop_last() =~= parts);
    assert(parts.push(Seq::<char>::empty()).drop_last() =~= parts);
    assert(parts.push(".."@).drop_last() =~= parts);
}

/// A session path is refused for being empty, for a NUL, for starting at a
/// root and for a `..` among its parts, in that order, and for nothing else.
pub proof fn session_paths_stay_in_the_session(path: Seq<char>, parts: Seq<Seq<char>>, c: char)
    requires
        c == '/' || c == '\\',
        parts.len() > 0,
        all_free_of(parts, seq!['/', '\\']),
        path == joined(parts, c),
    ensures
        path.len() == 0 ==> shell_ir::path_fault(path) == Some(ShellIrError::EmptyPath),
        path.len() > 0 && path.contains('\0') ==> shell_ir::path_fault(path) == Some(
            ShellIrError::NulByte,
        ),
        path.len() > 0 && !path.contains('\0') && (path[0] == '/' || path[0] == '\\')
            ==> shell_ir::path_fault(path) == Some(ShellIrError::AbsolutePath),
        path.len() > 0 && !path.contains('\0') && path[0] != '/' && path[0] != '\\'
            && parts.contains(".."@) ==> shell_ir::path_fault(path) == Some(
            ShellIrError::ParentComponent,
        ),
        path.len() > 0 && !path.contains('\0') && path[0] != '/' && path[0] != '\\'
            && !parts.contains(".."@) ==> shell_ir::path_fault(path) is None,
{
    let separators = shell_ir::path_separators();
    assert(separators =~= seq!['/', '\\']);
    assert(separators[0] == '/' && separators[1] == '\\');
    assert(separators.contains(c));
    splitting_undoes_joining(parts, c, separators);
    reveal_strlit("..");
    assert(".."@ =~= shell_ir::parent_component());
    if path.len() > 0 && separators.contains(path[0]) {
        assert(path[0] == '/' || path[0] == '\\');
    }
    if path.len() > 0 && (path[0] == '/' || path[0] == '\\') {
        assert(separators.contains(path[0]));
    }
}

/// The text of an absolute path has a slash before each name, and is read as
/// the same path again.
pub proof fn absolute_paths_are_read_as_written(names: Seq<Seq<char>>)
    requires
        forall|i: int| 0 <= i < names.len() ==> is_entry_name(#[trigger] names[i]),
    ensures
        host_path::parsed(host_path::path_text(names)) == Some(names),
        names.len() > 0 ==> host_path::path_text(names) == seq!['/'] + joined(names, '/'),
        host_path::relative_text(names) == joined(names, '/'),
{
    reveal_strlit("/");
    reveal_strlit(".");
    let none = Seq::<char>::empty();
    let path = host_path::path_text(names);
    let only = seq!['/'];
    assert(only.contains('/')) by {
        assert(only[0] == '/');
    }
    lemma_relative_joined(names);
    if names.len() == 0 {
        let pieces = seq![none, none];
        assert(pieces.drop_last() =~= seq![none]);
        reveal_with_fuel(joined, 2);
        assert(joined(pieces, '/') =~= path);
        splitting_undoes_joining(pieces, '/', only);
        reveal_with_fuel(host_path::counted, 3);
        assert(host_path::counted(pieces) =~= names);
        assert(!path.contains('\0'));
    } else {
        let pieces = seq![none] + names;
        lemma_below_root(names);
        assert(all_free_of(pieces, only)) by {
            assert forall|i: int| 0 <= i < pieces.len() implies is_free_of(
                #[trigger] pieces[i],
                only,
            ) by {
                if i > 0 {
                    assert(is_entry_name(names[i - 1]));
                    lemma_entry_free(names[i - 1]);
                }
            }
        }
        splitting_undoes_joining(pieces, '/', only);
        lemma_counted(names);
        lemma_joined_names(names);
        assert(path == seq!['/'] + joined(names, '/'));
        assert(!path.contains('\0')) by {
            if path.contains('\0') {
                let i = choose|i: int| 0 <= i < path.len() && path[i] == '\0';
                assert(i > 0);
                assert(joined(names, '/')[i - 1] == '\0');
            }
        }
    }
}

proof fn lemma_relative_joined(names: Seq<Seq<char>>)
    ensures
        host_path::relative_text(names) == joined(names, '/'),
    decreases names.len(),
{
    reveal_strlit("/");
    if names.len() > 1 {
        lemma_relative_joined(names.drop_last());
        assert(joined(names.drop_last(), '/') + "/"@ =~= joined(names.drop_last(), '/').push('/'));
    }
}

proof fn lemma_below_root(names: Seq<Seq<char>>)
    requires
        names.len() > 0,
    ensures
        host_path::below_root(names) == seq!['/'] + joined(names, '/'),
        host_path::below_root(names) == joined(seq![Seq::<char>::empty()] + names, '/'),
    decreases names.len(),
{
    reveal_strlit("/");
    let none = Seq::<char>::empty();
    let pieces = seq![none] + names;
    assert(pieces.drop_last() =~= seq![none] + names.drop_last());
    if names.len() == 1 {
        assert(names.drop_last() =~= Seq::empty());
        assert(pieces.drop_last() =~= seq![none]);
        assert(host_path::below_root(names.drop_last()) =~= none);
        assert(host_path::below_root(names) =~= seq!['/'] + names[0]);
        reveal_with_fuel(joined, 2);
        assert(joined(pieces, '/') =~= seq!['/'] + names[0]);
    } else {
        lemma_below_root(names.drop_last());
        assert(host_path::below_root(names) =~= seq!['/'] + joined(names, '/'));
        assert(host_path::below_root(names) =~= joined(pieces, '/'));
    }
}

proof fn lemma_counted(names: Seq<Seq<char>>)
    requires
        forall|i: int| 0 <= i < names.len() ==> is_entry_name(#[trigger] names[i]),
    ensures
        host_path::counted(seq![Seq::<char>::empty()] + names) == names,
    decreases names.len(),
{
    let pieces = seq![Seq::<char>::empty()] + names;
    if names.len() == 0 {
        assert(pieces.drop_last() =~= Seq::empty());
        reveal_with_fuel(host_path::counted, 2);
        assert(host_path::counted(pieces) =~= names);
    } else {
        assert(is_entry_name(names[names.len() - 1]));
        let rest = names.drop_last();
        assert forall|i: int| 0 <= i < rest.len() implies is_entry_name(#[trigger] rest[i]) by {
            assert(rest[i] == names[i]);
        }
        assert(pieces.drop_last() =~= seq![Seq::<char>::empty()] + rest);
        lemma_counted(rest);
        assert(rest.push(names.last()) =~= names);
    }
}

/// The value of a lower-case hexadecimal digit.
pub open spec fn hex_value(c: char) -> Option<int> {
    if 48 <= c as int <= 57 {
        Some(c as int - 48)
    } else if 97 <= c as int <= 102 {
        Some(c as int - 87)
    } else {
        None
    }
}

/// Bytes are written in hexadecimal by two lower-case digits each, in order, the
/// one that weighs sixteen first.
pub proof fn hexadecimals_write_each_byte(bytes: Seq<u8>, i: int)
    requires
        0 <= i < bytes.len(),
    ensures
        shell_ir::hex_text(bytes).len() == 2 * bytes.len(),
        ({
            let high = hex_value(shell_ir::hex_text(bytes)[2 * i]);
            let low = hex_value(shell_ir::hex_text(bytes)[2 * i + 1]);
            high is Some && low is Some && high->0 * 16 + low->0 == bytes[i]
        }),
    decreases bytes.len(),
{
    shell_ir::lemma_hex_len(bytes);
    shell_ir::lemma_hex_len(bytes.drop_last());
    let n = bytes.last() as int;
    assert(0 <= n / 16 < 16 && 0 <= n % 16 < 16 && n == n / 16 * 16 + n % 16);
    if i < bytes.len() - 1 {
        hexadecimals_write_each_byte(bytes.drop_last(), i);
        assert(bytes.drop_last()[i] == bytes[i]);
    }
}

/// The entries of a map are listed in the order of their names, each once.
pub proof fn maps_are_listed_by_name<V>(
    pairs: Seq<(Seq<char>, V)>,
    map: Map<Seq<char>, V>,
)
    requires
        forall|i: int, j: int|
            0 <= i < j < pairs.len() ==> text_order::before(
                (#[trigger] pairs[i]).0,
                (#[trigger] pairs[j]).0,
            ),
        forall|i: int|
            0 <= i < pairs.len() ==> map.dom().contains((#[trigger] pairs[i]).0)
                && map[pairs[i].0] == pairs[i].1,
        forall|name: Seq<char>|
            #[trigger] map.dom().contains(name) ==> exists|i: int|
                0 <= i < pairs.len() && (#[trigger] pairs[i]).0 == name,
    ensures
        text_map::ordered_pairs(map) == pairs,
{
    let keys = text_map::keys_of(pairs);
    assert(text_order::increasing(keys)) by {
        assert forall|i: int, j: int| 0 <= i < j < keys.len() implies text_order::before(
            #[trigger] keys[i],
            #[trigger] keys[j],
        ) by {
            assert(text_order::before(pairs[i].0, pairs[j].0));
        }
    }
    text_map::lemma_map_of(pairs);
    let listed = text_map::map_of(pairs);
    assert forall|name: Seq<char>| #[trigger] listed.dom().contains(name) implies map.dom().contains(
        name,
    ) && listed[name] == map[name] by {
        let i = choose|i: int| 0 <= i < keys.len() && keys[i] == name;
        assert(pairs[i].0 == name);
    }
    assert forall|name: Seq<char>| #[trigger] map.dom().contains(
        name,
    ) implies listed.dom().contains(name) by {
        let i = choose|i: int| 0 <= i < pairs.len() && (#[trigger] pairs[i]).0 == name;
        assert(listed.dom().contains(pairs[i].0));
    }
    assert(listed =~= map);
    assert(text_map::is_ordered_form(pairs, map));
    text_map::lemma_pairs_unique(pairs, text_map::ordered_pairs(map));
}

} // verus!
