//! Looking for words and numbers in text.

use vstd::prelude::*;

verus! {

/// Whether a part stands at a place of a text.
pub open spec fn part_at(text: Seq<char>, part: Seq<char>, i: int) -> bool {
    0 <= i && i + part.len() <= text.len() && text.subrange(i, i + part.len()) == part
}

/// Whether a text has a part.
pub open spec fn has_part(text: Seq<char>, part: Seq<char>) -> bool {
    exists|i: int| part_at(text, part, i)
}

/// Whether a character is white space.
pub open spec fn is_space(c: char) -> bool {
    let n = c as int;
    ||| 0x09 <= n <= 0x0d
    ||| n == 0x20
    ||| n == 0x85
    ||| n == 0xa0
    ||| n == 0x1680
    ||| 0x2000 <= n <= 0x200a
    ||| n == 0x2028
    ||| n == 0x2029
    ||| n == 0x202f
    ||| n == 0x205f
    ||| n == 0x3000
}

/// The stretches of a text between white space, empty ones among them.
pub open spec fn stretches(text: Seq<char>) -> Seq<Seq<char>>
    decreases text.len(),
{
    if text.len() == 0 {
        seq![Seq::<char>::empty()]
    } else {
        let front = stretches(text.drop_last());
        if is_space(text.last()) {
            front.push(Seq::<char>::empty())
        } else {
            front.drop_last().push(front.last().push(text.last()))
        }
    }
}

/// Whether a text ends with another.
pub open spec fn ends_with(text: Seq<char>, end: Seq<char>) -> bool {
    part_at(text, end, text.len() - end.len())
}

/// A text without another at its end, however often it stands there.
pub open spec fn trimmed(text: Seq<char>, end: Seq<char>) -> Seq<char>
    decreases text.len(),
{
    if end.len() > 0 && ends_with(text, end) {
        trimmed(text.take(text.len() - end.len()), end)
    } else {
        text
    }
}

/// The number that decimal digits write, if there are only such.
pub open spec fn digits_value(text: Seq<char>) -> Option<nat>
    decreases text.len(),
{
    if text.len() == 0 {
        Some(0)
    } else {
        match digits_value(text.drop_last()) {
            Some(front) => if 48 <= text.last() as int <= 57 {
                Some((front * 10 + (text.last() as int - 48)) as nat)
            } else {
                None
            },
            None => None,
        }
    }
}

/// The number that a text writes: digits, after a plus sign or without one, and
/// not too large for its type.
pub open spec fn number_value(text: Seq<char>) -> Option<nat> {
    let digits = if text.len() > 0 && text[0] == '+' {
        text.skip(1)
    } else {
        text
    };
    match digits_value(digits) {
        Some(value) => if digits.len() > 0 && value <= u64::MAX {
            Some(value)
        } else {
            None
        },
        None => None,
    }
}

/// The number of a word such as `12bytes:` without what stands at its end.
pub open spec fn size_of_word(word: Seq<char>) -> Option<nat> {
    number_value(trimmed(trimmed(word, "bytes"@), ":"@))
}

/// The first number among words.
pub open spec fn first_size(words: Seq<Seq<char>>) -> Option<nat>
    decreases words.len(),
{
    if words.len() == 0 {
        None
    } else {
        match first_size(words.drop_last()) {
            Some(size) => Some(size),
            None => size_of_word(words.last()),
        }
    }
}

/// The characters of a text.
pub fn chars_of(text: &str) -> (chars: Vec<char>)
    ensures
        chars@ == text@,
{
    let n: usize = text.unicode_len();
    let mut chars: Vec<char> = Vec::new();
    let mut i: usize = 0;
    while i < n
        invariant
            i <= n,
            n == text@.len(),
            chars@ == text@.take(i as int),
        decreases n - i,
    {
        chars.push(text.get_char(i));
        i = i + 1;
        assert(chars@ =~= text@.take(i as int));
    }
    assert(text@.take(n as int) =~= text@);
    chars
}

fn stands_at(text: &Vec<char>, part: &Vec<char>, i: usize) -> (found: bool)
    requires
        i + part@.len() <= text@.len(),
    ensures
        found == part_at(text@, part@, i as int),
{
    let total: usize = text.len();
    let mut k: usize = 0;
    while k < part.len()
        invariant
            k <= part@.len(),
            total == text@.len(),
            i + part@.len() <= total,
            forall|j: int| 0 <= j < k ==> text@[i + j] == part@[j],
        decreases part@.len() - k,
    {
        if text[i + k] != part[k] {
            assert(text@.subrange(i as int, i + part@.len())[k as int] == text@[i + k]);
            return false;
        }
        k = k + 1;
    }
    assert(text@.subrange(i as int, i + part@.len()) =~= part@);
    true
}

/// Whether a text has a part.
pub fn contains_text(text: &str, part: &str) -> (found: bool)
    ensures
        found == has_part(text@, part@),
{
    let all = chars_of(text);
    let wanted = chars_of(part);
    if wanted.len() > all.len() {
        return false;
    }
    let last: usize = all.len() - wanted.len();
    let mut i: usize = 0;
    while i < last
        invariant
            last == all@.len() - wanted@.len(),
            i <= last,
            all@ == text@,
            wanted@ == part@,
            forall|j: int| 0 <= j < i ==> !part_at(text@, part@, j),
        decreases last - i,
    {
        if stands_at(&all, &wanted, i) {
            assert(part_at(text@, part@, i as int));
            return true;
        }
        i = i + 1;
    }
    let found = stands_at(&all, &wanted, last);
    proof {
        if found {
            assert(part_at(text@, part@, last as int));
        } else {
            assert forall|j: int| !part_at(text@, part@, j) by {
                if part_at(text@, part@, j) {
                    assert(0 <= j <= last);
                }
            }
        }
    }
    found
}

fn code_of(c: char) -> (code: u32)
    ensures
        code == c as int,
{
    c as u32
}

fn is_white(c: char) -> (yes: bool)
    ensures
        yes == is_space(c),
{
    let n: u32 = code_of(c);
    (0x09 <= n && n <= 0x0d) || n == 0x20 || n == 0x85 || n == 0xa0 || n == 0x1680 || (0x2000 <= n
        && n <= 0x200a) || n == 0x2028 || n == 0x2029 || n == 0x202f || n == 0x205f || n == 0x3000
}

/// Takes off an end, however often it stands there.
fn trim(text: Vec<char>, end: &Vec<char>) -> (rest: Vec<char>)
    requires
        end@.len() > 0,
    ensures
        rest@ == trimmed(text@, end@),
{
    let ghost whole = trimmed(text@, end@);
    let mut rest = text;
    let n: usize = end.len();
    while rest.len() >= n && stands_at(&rest, end, rest.len() - n)
        invariant
            n == end@.len(),
            n > 0,
            whole == trimmed(rest@, end@),
        decreases rest@.len(),
    {
        let ghost before = rest@;
        let keep: usize = rest.len() - n;
        rest.truncate(keep);
        assert(rest@ =~= before.take(before.len() - n));
    }
    rest
}

proof fn lemma_digits_fail(text: Seq<char>, n: int)
    requires
        0 <= n <= text.len(),
        digits_value(text.take(n)) is None,
    ensures
        digits_value(text) is None,
    decreases text.len() - n,
{
    if n < text.len() {
        assert(text.take(n + 1).drop_last() =~= text.take(n));
        lemma_digits_fail(text, n + 1);
    } else {
        assert(text.take(n) =~= text);
    }
}

proof fn lemma_digits_grow(text: Seq<char>, n: int)
    requires
        0 <= n <= text.len(),
        digits_value(text.take(n)) matches Some(v) && v > u64::MAX,
    ensures
        digits_value(text) matches Some(v) ==> v > u64::MAX,
    decreases text.len() - n,
{
    if n < text.len() {
        assert(text.take(n + 1).drop_last() =~= text.take(n));
        if digits_value(text.take(n + 1)) is Some {
            lemma_digits_grow(text, n + 1);
        } else {
            lemma_digits_fail(text, n + 1);
        }
    } else {
        assert(text.take(n) =~= text);
    }
}

fn read_digits(text: &Vec<char>, from: usize) -> (value: Option<u64>)
    requires
        from <= text@.len(),
    ensures
        match value {
            Some(v) => digits_value(text@.skip(from as int)) == Some(v as nat),
            None => match digits_value(text@.skip(from as int)) {
                Some(v) => v > u64::MAX,
                None => true,
            },
        },
{
    let ghost rest = text@.skip(from as int);
    let mut value: u64 = 0;
    let mut i: usize = from;
    assert(rest.take(0) =~= Seq::<char>::empty());
    while i < text.len()
        invariant
            from <= i <= text@.len(),
            rest == text@.skip(from as int),
            digits_value(rest.take(i - from)) == Some(value as nat),
        decreases text@.len() - i,
    {
        proof {
            let upto = rest.take(i - from + 1);
            assert(upto.drop_last() =~= rest.take(i - from));
            assert(upto.last() == text@[i as int]);
        }
        let n: u32 = code_of(text[i]);
        if n < 48 || n > 57 {
            proof {
                lemma_digits_fail(rest, i - from + 1);
            }
            return None;
        }
        let wide: u128 = (value as u128) * 10 + ((n - 48) as u128);
        if wide > u64::MAX as u128 {
            proof {
                lemma_digits_grow(rest, i - from + 1);
            }
            return None;
        }
        value = wide as u64;
        i = i + 1;
    }
    assert(rest.take(i - from) =~= rest);
    Some(value)
}

fn read_number(text: &Vec<char>) -> (value: Option<u64>)
    ensures
        match value {
            Some(v) => number_value(text@) == Some(v as nat),
            None => number_value(text@) is None,
        },
{
    let from: usize = if text.len() > 0 && text[0] == '+' {
        1
    } else {
        0
    };
    assert(text@.skip(0) =~= text@);
    if text.len() == from {
        return None;
    }
    read_digits(text, from)
}

fn read_size(word: Vec<char>) -> (size: Option<u64>)
    ensures
        match size {
            Some(v) => size_of_word(word@) == Some(v as nat),
            None => size_of_word(word@) is None,
        },
{
    proof {
        reveal_strlit("bytes");
        reveal_strlit(":");
    }
    let unit = chars_of("bytes");
    let colon = chars_of(":");
    let bare = trim(trim(word, &unit), &colon);
    read_number(&bare)
}

/// What lists of characters hold.
pub open spec fn char_lists(lists: Seq<Vec<char>>) -> Seq<Seq<char>> {
    Seq::new(lists.len(), |i: int| lists[i]@)
}

fn split_stretches(text: &Vec<char>) -> (words: Vec<Vec<char>>)
    ensures
        char_lists(words@) == stretches(text@),
{
    let mut done: Vec<Vec<char>> = Vec::new();
    let mut current: Vec<char> = Vec::new();
    let mut i: usize = 0;
    assert(char_lists(done@).push(current@) =~= stretches(text@.take(0)));
    while i < text.len()
        invariant
            i <= text@.len(),
            char_lists(done@).push(current@) == stretches(text@.take(i as int)),
        decreases text@.len() - i,
    {
        proof {
            let front = char_lists(done@).push(current@);
            assert(text@.take(i + 1).drop_last() =~= text@.take(i as int));
            assert(text@.take(i + 1).last() == text@[i as int]);
            assert(front.drop_last() =~= char_lists(done@));
        }
        if is_white(text[i]) {
            let ghost finished = current@;
            let ghost earlier = char_lists(done@);
            done.push(current);
            current = Vec::new();
            proof {
                assert(char_lists(done@) =~= earlier.push(finished));
                assert(current@ =~= Seq::<char>::empty());
            }
        } else {
            current.push(text[i]);
        }
        i = i + 1;
    }
    assert(text@.take(i as int) =~= text@);
    let ghost earlier = char_lists(done@);
    let ghost finished = current@;
    done.push(current);
    assert(char_lists(done@) =~= earlier.push(finished));
    done
}

/// The first number among the words of a text, each taken without `bytes` and
/// colons at its end.
pub fn find_size(text: &str) -> (size: Option<u64>)
    ensures
        match size {
            Some(v) => first_size(stretches(text@)) == Some(v as nat),
            None => first_size(stretches(text@)) is None,
        },
{
    let chars = chars_of(text);
    let words = split_stretches(&chars);
    let ghost all = stretches(text@);
    let mut i: usize = 0;
    assert(all.take(0) =~= Seq::<Seq<char>>::empty());
    while i < words.len()
        invariant
            i <= words@.len(),
            all == char_lists(words@),
            all == stretches(text@),
            first_size(all.take(i as int)) is None,
        decreases words@.len() - i,
    {
        proof {
            assert(all.take(i + 1).drop_last() =~= all.take(i as int));
            assert(all.take(i + 1).last() == words@[i as int]@);
        }
        let word = copy_chars(&words[i]);
        match read_size(word) {
            Some(size) => {
                proof {
                    lemma_first_stays(all, i + 1);
                }
                return Some(size);
            },
            None => {},
        }
        i = i + 1;
    }
    assert(all.take(i as int) =~= all);
    None
}

proof fn lemma_first_stays(words: Seq<Seq<char>>, n: int)
    requires
        0 <= n <= words.len(),
        first_size(words.take(n)) is Some,
    ensures
        first_size(words) == first_size(words.take(n)),
    decreases words.len() - n,
{
    if n < words.len() {
        assert(words.take(n + 1).drop_last() =~= words.take(n));
        lemma_first_stays(words, n + 1);
    } else {
        assert(words.take(n) =~= words);
    }
}

fn copy_chars(chars: &Vec<char>) -> (copy: Vec<char>)
    ensures
        copy@ == chars@,
{
    let mut copy: Vec<char> = Vec::new();
    let mut i: usize = 0;
    while i < chars.len()
        invariant
            i <= chars@.len(),
            copy@ == chars@.take(i as int),
        decreases chars@.len() - i,
    {
        copy.push(chars[i]);
        i = i + 1;
        assert(copy@ =~= chars@.take(i as int));
    }
    assert(chars@.take(i as int) =~= chars@);
    copy
}

/// A text has every part that it is put together from.
pub proof fn parts_are_found(before: Seq<char>, part: Seq<char>, behind: Seq<char>)
    ensures
        has_part(before + part + behind, part),
{
    let text = before + part + behind;
    let i = before.len() as int;
    assert(text.subrange(i, i + part.len()) =~= part);
    assert(part_at(text, part, i));
}

/// A text that is shorter than a part does not have it.
pub proof fn short_texts_have_no_long_parts(text: Seq<char>, part: Seq<char>)
    requires
        text.len() < part.len(),
    ensures
        !has_part(text, part),
{
}

/// A further digit makes a number ten times as large and adds itself; anything else makes
/// it none.
pub proof fn digits_write_a_number(text: Seq<char>, c: char)
    ensures
        digits_value(seq![]) == Some(0nat),
        digits_value(text) matches Some(value) ==> (48 <= c as int <= 57 ==> digits_value(
            text.push(c),
        ) == Some((10 * value + (c as int - 48)) as nat)),
        !(48 <= c as int <= 57) ==> digits_value(text.push(c)) is None,
{
    assert(text.push(c).drop_last() =~= text);
}

} // verus!
