//! Texts as sequences of characters: comparison, search and decimal numerals.
use vstd::prelude::*;

verus! {

/// A text as its characters.
pub type Text = Seq<char>;

/// `String::push` appends the given character to the end of the text.
pub assume_specification[ std::string::String::push ](s: &mut String, ch: char)
    ensures
        final(s)@ == old(s)@.push(ch),
;

/// Whether two texts are the same.
pub fn same(left: &str, right: &str) -> (equal: bool)
    ensures
        equal == (left@ == right@),
{
    left.to_owned() == right.to_owned()
}

/// Whether two optional texts are the same.
pub fn same_option(left: &Option<String>, right: &Option<String>) -> (equal: bool)
    ensures
        equal == (left.deep_view() == right.deep_view()),
{
    match (left, right) {
        (Some(left), Some(right)) => *left == *right,
        (None, None) => true,
        _ => false,
    }
}

/// An optional text as an owned one.
pub fn owned(text: Option<&str>) -> (copy: Option<String>)
    ensures
        copy.deep_view() == text.deep_view(),
{
    match text {
        Some(text) => Some(text.to_owned()),
        None => None,
    }
}

/// A copy of an optional text.
pub fn copied(text: &Option<String>) -> (copy: Option<String>)
    ensures
        copy.deep_view() == text.deep_view(),
{
    match text {
        Some(text) => Some(text.clone()),
        None => None,
    }
}

/// A copy of a list of texts.
pub fn copied_all(texts: &Vec<String>) -> (copies: Vec<String>)
    ensures
        copies.deep_view() == texts.deep_view(),
{
    let mut copies: Vec<String> = Vec::new();
    let mut i: usize = 0;
    while i < texts.len()
        invariant
            i <= texts.len(),
            copies.deep_view() == texts.deep_view().take(i as int),
        decreases texts.len() - i,
    {
        copies.push(texts[i].clone());
        i += 1;
        assert(texts.deep_view().take(i as int) =~= texts.deep_view().take(i - 1).push(
            texts.deep_view()[i - 1],
        ));
    }
    assert(texts.deep_view().take(i as int) =~= texts.deep_view());
    copies
}

/// The characters of a text.
pub fn chars_of(text: &str) -> (characters: Vec<char>)
    ensures
        characters@ == text@,
{
    let mut characters: Vec<char> = Vec::new();
    for character in walk: text.chars()
        invariant
            walk.seq() == text@,
            characters@ == walk.seq().take(walk.index()),
    {
        assert(walk.seq().take(walk.index() + 1) =~= walk.seq().take(walk.index()).push(
            walk.seq()[walk.index()],
        ));
        characters.push(character);
    }
    characters
}

/// Whether a text has no characters.
pub fn is_empty(text: &str) -> (answer: bool)
    ensures
        answer == (text@.len() == 0),
{
    chars_of(text).len() == 0
}

/// The text that consists of `characters[from..to]`.
pub fn text_of(characters: &Vec<char>, from: usize, to: usize) -> (text: String)
    requires
        from <= to <= characters.len(),
    ensures
        text@ == characters@.subrange(from as int, to as int),
{
    let mut text: String = String::new();
    let mut i: usize = from;
    while i < to
        invariant
            from <= i <= to <= characters.len(),
            text@ == characters@.subrange(from as int, i as int),
        decreases to - i,
    {
        text.push(characters[i]);
        i += 1;
        assert(characters@.subrange(from as int, i as int) =~= characters@.subrange(
            from as int,
            i - 1,
        ).push(characters@[i - 1]));
    }
    text
}

/// `left` followed by `right`.
pub fn joined(left: &str, right: &str) -> (text: String)
    ensures
        text@ == left@ + right@,
{
    let mut text: String = left.to_owned();
    text.append(right);
    text
}

/// Whether `left` sorts before `right`: character by character, a proper prefix first.
pub open spec fn before(left: Text, right: Text) -> bool
    decreases left.len(),
{
    if right.len() == 0 {
        false
    } else if left.len() == 0 {
        true
    } else if left[0] != right[0] {
        (left[0] as int) < (right[0] as int)
    } else {
        before(left.skip(1), right.skip(1))
    }
}

/// The order of texts holds between no text and itself.
pub proof fn lemma_before_irreflexive(text: Text)
    ensures
        !before(text, text),
    decreases text.len(),
{
    if text.len() > 0 {
        lemma_before_irreflexive(text.skip(1));
    }
}

/// The order of texts is transitive.
pub proof fn lemma_before_transitive(left: Text, middle: Text, right: Text)
    requires
        before(left, middle),
        before(middle, right),
    ensures
        before(left, right),
    decreases left.len(),
{
    if left.len() > 0 && left[0] == middle[0] && middle[0] == right[0] {
        lemma_before_transitive(left.skip(1), middle.skip(1), right.skip(1));
    }
}

/// Of two different texts one sorts before the other.
pub proof fn lemma_before_total(left: Text, right: Text)
    ensures
        left == right || before(left, right) || before(right, left),
    decreases left.len(),
{
    if left.len() > 0 && right.len() > 0 && left[0] == right[0] {
        lemma_before_total(left.skip(1), right.skip(1));
        if left.skip(1) == right.skip(1) {
            assert(left =~= seq![left[0]] + left.skip(1));
            assert(right =~= seq![right[0]] + right.skip(1));
        }
    } else if left.len() == 0 && right.len() == 0 {
        assert(left =~= right);
    }
}

/// Of two texts at most one sorts before the other.
pub proof fn lemma_before_asymmetric(low: Text, high: Text)
    requires
        before(low, high),
    ensures
        !before(high, low),
        low != high,
{
    lemma_before_irreflexive(low);
    if before(high, low) {
        lemma_before_transitive(low, high, low);
    }
}

/// The first place at which two texts differ decides their order.
pub proof fn lemma_before_at(low: Text, high: Text, place: int)
    requires
        0 <= place < low.len(),
        place < high.len(),
        forall|i: int| 0 <= i < place ==> low[i] == high[i],
        (low[place] as int) < (high[place] as int),
    ensures
        before(low, high),
    decreases place,
{
    if place > 0 {
        assert(low[0] == high[0]);
        lemma_before_at(low.skip(1), high.skip(1), place - 1);
    }
}

/// Whether `left` sorts before `right`.
pub fn is_before(left: &str, right: &str) -> (answer: bool)
    ensures
        answer == before(left@, right@),
{
    let lefts = chars_of(left);
    let rights = chars_of(right);
    let mut i: usize = 0;
    assert(lefts@.skip(0) =~= left@);
    assert(rights@.skip(0) =~= right@);
    while i < lefts.len() && i < rights.len() && lefts[i] == rights[i]
        invariant
            i <= lefts.len(),
            i <= rights.len(),
            before(left@, right@) == before(lefts@.skip(i as int), rights@.skip(i as int)),
        decreases lefts.len() - i,
    {
        assert(lefts@.skip(i as int).skip(1) =~= lefts@.skip(i + 1));
        assert(rights@.skip(i as int).skip(1) =~= rights@.skip(i + 1));
        i += 1;
    }
    if i >= rights.len() {
        false
    } else if i >= lefts.len() {
        true
    } else {
        lefts[i] < rights[i]
    }
}

/// Whether `part` occurs in `whole` as it stands; the empty text occurs everywhere.
pub open spec fn occurs(whole: Text, part: Text) -> bool {
    exists|i: int|
        0 <= i <= whole.len() - part.len() && #[trigger] whole.subrange(i, i + part.len()) == part
}

/// Whether `part` occurs in `whole` as it stands.
pub fn contains(whole: &str, part: &str) -> (answer: bool)
    ensures
        answer == occurs(whole@, part@),
{
    let wholes = chars_of(whole);
    let parts = chars_of(part);
    if parts.len() > wholes.len() {
        return false;
    }
    let mut i: usize = 0;
    while i <= wholes.len() - parts.len()
        invariant
            wholes@ == whole@,
            parts@ == part@,
            parts.len() <= wholes.len(),
            i <= wholes.len() - parts.len() + 1,
            forall|k: int|
                0 <= k < i ==> #[trigger] whole@.subrange(k, k + part@.len()) != part@,
        decreases wholes.len() - parts.len() + 1 - i,
    {
        let mut j: usize = 0;
        while j < parts.len() && wholes[i + j] == parts[j]
            invariant
                i + parts.len() <= wholes.len(),
                j <= parts.len(),
                forall|k: int| 0 <= k < j ==> wholes@[i + k] == #[trigger] parts@[k],
            decreases parts.len() - j,
        {
            j += 1;
        }
        if j == parts.len() {
            assert(whole@.subrange(i as int, i + part@.len()) =~= part@);
            return true;
        }
        assert(whole@.subrange(i as int, i + part@.len())[j as int] != part@[j as int]);
        if i == wholes.len() - parts.len() {
            return false;
        }
        i += 1;
    }
    false
}

/// Whether the text begins with `prefix`.
pub open spec fn begins_with(whole: Text, prefix: Text) -> bool {
    prefix.len() <= whole.len() && whole.take(prefix.len() as int) == prefix
}

/// Whether the text begins with `prefix`.
pub fn starts_with(whole: &str, prefix: &str) -> (answer: bool)
    ensures
        answer == begins_with(whole@, prefix@),
{
    let wholes = chars_of(whole);
    let length = chars_of(prefix).len();
    if length > wholes.len() {
        return false;
    }
    let start = text_of(&wholes, 0, length);
    same(start.as_str(), prefix)
}

/// The place of the first item in a list that is the given one.
pub open spec fn position<A>(items: Seq<A>, item: A) -> Option<int>
    decreases items.len(),
{
    if items.len() == 0 {
        None
    } else {
        match position(items.drop_last(), item) {
            Some(i) => Some(i),
            None => if items.last() == item {
                Some(items.len() - 1)
            } else {
                None
            },
        }
    }
}

/// A place is found exactly where the item occurs, and it is the first.
pub proof fn lemma_position<A>(items: Seq<A>, item: A)
    ensures
        position(items, item) matches Some(i) ==> 0 <= i < items.len() && items[i] == item
            && forall|j: int| 0 <= j < i ==> items[j] != item,
        position(items, item) is None ==> forall|j: int| 0 <= j < items.len() ==> items[j] != item,
    decreases items.len(),
{
    if items.len() > 0 {
        lemma_position(items.drop_last(), item);
        assert forall|j: int| 0 <= j < items.len() - 1 implies items[j] == items.drop_last()[j] by {}
    }
}

/// The first place at which an item occurs is the one found.
pub proof fn lemma_position_is<A>(items: Seq<A>, item: A, i: int)
    requires
        0 <= i < items.len(),
        items[i] == item,
        forall|j: int| 0 <= j < i ==> items[j] != item,
    ensures
        position(items, item) == Some(i),
{
    lemma_position(items, item);
}

/// A longer list has the items of a shorter one at their places.
pub proof fn lemma_position_prefix<A>(items: Seq<A>, longer: Seq<A>, item: A)
    requires
        items.len() <= longer.len(),
        forall|i: int| 0 <= i < items.len() ==> items[i] == longer[i],
        position(items, item) is Some,
    ensures
        position(longer, item) == position(items, item),
{
    lemma_position(items, item);
    lemma_position_is(longer, item, position(items, item)->0);
}

/// An item at the end of a list changes nothing for those before it.
pub proof fn lemma_position_push<A>(items: Seq<A>, added: A, item: A)
    ensures
        position(items.push(added), item) == match position(items, item) {
            Some(i) => Some(i),
            None => if added == item {
                Some(items.len() as int)
            } else {
                None
            },
        },
{
    assert(items.push(added).drop_last() =~= items);
}

/// Whether a character has the Unicode property `White_Space`.
pub open spec fn is_white_space(character: char) -> bool {
    let code = character as int;
    ||| 0x9 <= code <= 0xd
    ||| code == 0x20
    ||| code == 0x85
    ||| code == 0xa0
    ||| code == 0x1680
    ||| 0x2000 <= code <= 0x200a
    ||| code == 0x2028
    ||| code == 0x2029
    ||| code == 0x202f
    ||| code == 0x205f
    ||| code == 0x3000
}

/// Whether a character has the Unicode property `White_Space`.
pub fn white_space(character: char) -> (answer: bool)
    ensures
        answer == is_white_space(character),
{
    let code: u32 = character as u32;
    (0x9 <= code && code <= 0xd) || code == 0x20 || code == 0x85 || code == 0xa0 || code == 0x1680
        || (0x2000 <= code && code <= 0x200a) || code == 0x2028 || code == 0x2029 || code == 0x202f
        || code == 0x205f || code == 0x3000
}

/// Whether a character is one of the Unicode control codes.
pub open spec fn is_control(character: char) -> bool {
    character as int <= 0x1f || 0x7f <= character as int <= 0x9f
}

/// Whether a character is one of the Unicode control codes.
pub fn control(character: char) -> (answer: bool)
    ensures
        answer == is_control(character),
{
    let code: u32 = character as u32;
    code <= 0x1f || (0x7f <= code && code <= 0x9f)
}

/// Whether a text holds nothing but white space.
pub open spec fn is_blank(text: Text) -> bool {
    forall|i: int| 0 <= i < text.len() ==> is_white_space(#[trigger] text[i])
}

/// Whether a text holds nothing but white space.
pub fn blank(text: &str) -> (answer: bool)
    ensures
        answer == is_blank(text@),
{
    let characters = chars_of(text);
    let mut i: usize = 0;
    while i < characters.len()
        invariant
            characters@ == text@,
            i <= characters.len(),
            forall|k: int| 0 <= k < i ==> is_white_space(#[trigger] characters@[k]),
        decreases characters.len() - i,
    {
        if !white_space(characters[i]) {
            assert(!is_white_space(text@[i as int]));
            return false;
        }
        i += 1;
    }
    true
}

/// Whether a text is not empty and neither begins nor ends with white space.
pub open spec fn is_trimmed(text: Text) -> bool {
    text.len() > 0 && !is_white_space(text[0]) && !is_white_space(text.last())
}

/// Whether a text is not empty and neither begins nor ends with white space.
pub fn trimmed(text: &str) -> (answer: bool)
    ensures
        answer == is_trimmed(text@),
{
    let characters = chars_of(text);
    characters.len() > 0 && !white_space(characters[0]) && !white_space(
        characters[characters.len() - 1],
    )
}

/// Whether a character is one of the ten ASCII digits.
pub open spec fn is_digit(character: char) -> bool {
    '0' <= character <= '9'
}

/// The number that an ASCII digit stands for.
pub open spec fn digit_value(character: char) -> int {
    character as int - '0' as int
}

/// The ASCII digit of a number below ten.
pub open spec fn digit(value: int) -> char {
    ('0' as int + value) as char
}

/// Whether a text consists of ASCII digits alone.
pub open spec fn all_digits(text: Text) -> bool {
    forall|i: int| 0 <= i < text.len() ==> is_digit(#[trigger] text[i])
}

/// The number that a text of ASCII digits stands for.
pub open spec fn decimal_value(text: Text) -> nat
    decreases text.len(),
{
    if text.len() == 0 {
        0
    } else {
        (decimal_value(text.drop_last()) * 10 + digit_value(text.last())) as nat
    }
}

/// The shortest decimal numeral of a number.
pub open spec fn decimal(value: nat) -> Text
    decreases value,
{
    if value < 10 {
        seq![digit(value as int)]
    } else {
        decimal(value / 10).push(digit((value % 10) as int))
    }
}

/// A numeral consists of digits and stands for its number.
pub proof fn lemma_decimal(value: nat)
    ensures
        decimal(value).len() > 0,
        all_digits(decimal(value)),
        decimal_value(decimal(value)) == value,
    decreases value,
{
    if value < 10 {
        let text = decimal(value);
        assert(text.drop_last() =~= Seq::<char>::empty());
        assert(decimal_value(text.drop_last()) == 0);
    } else {
        lemma_decimal(value / 10);
        let text = decimal(value);
        assert(text.drop_last() =~= decimal(value / 10));
    }
}

fn digit_char(value: u8) -> (character: char)
    requires
        value < 10,
    ensures
        character == digit(value as int),
{
    match value {
        0 => '0',
        1 => '1',
        2 => '2',
        3 => '3',
        4 => '4',
        5 => '5',
        6 => '6',
        7 => '7',
        8 => '8',
        _ => '9',
    }
}

/// The decimal numeral of a number.
pub fn decimal_text(value: u128) -> (text: String)
    ensures
        text@ == decimal(value as nat),
    decreases value,
{
    let mut text = if value < 10 {
        String::new()
    } else {
        decimal_text(value / 10)
    };
    text.push(digit_char((value % 10) as u8));
    assert(value < 10 ==> text@ =~= seq![digit(value as int)]);
    text
}

/// The decimal numeral of a number below one hundred, with two digits.
pub open spec fn two_digits(value: int) -> Text {
    seq![digit(value / 10), digit(value % 10)]
}

/// The decimal numeral of a number below one hundred, with two digits.
pub fn two_digit_text(value: u8) -> (text: String)
    requires
        value < 100,
    ensures
        text@ == two_digits(value as int),
{
    let mut text: String = String::new();
    text.push(digit_char(value / 10));
    text.push(digit_char(value % 10));
    assert(text@ =~= two_digits(value as int));
    text
}

/// The absolute value of an integer.
pub open spec fn magnitude(value: int) -> nat {
    if value < 0 {
        (-value) as nat
    } else {
        value as nat
    }
}

/// The absolute value of an integer; every `i128` has one.
pub fn magnitude_of(value: i128) -> (result: u128)
    ensures
        result as nat == magnitude(value as int),
{
    if value < 0 {
        (-(value + 1)) as u128 + 1
    } else {
        value as u128
    }
}

/// The decimal numeral of an integer, with a minus sign where it is negative.
pub open spec fn signed_decimal(value: int) -> Text {
    if value < 0 {
        seq!['-'] + decimal(magnitude(value))
    } else {
        decimal(magnitude(value))
    }
}

/// The decimal numeral of an integer.
pub fn signed_text(value: i128) -> (text: String)
    ensures
        text@ == signed_decimal(value as int),
{
    let digits = decimal_text(magnitude_of(value));
    if value < 0 {
        let mut text: String = String::new();
        text.push('-');
        text.append(digits.as_str());
        assert(text@ =~= signed_decimal(value as int));
        text
    } else {
        digits
    }
}

/// A longer numeral never stands for a smaller number.
pub proof fn lemma_prefix_value(text: Text, length: int)
    requires
        0 <= length <= text.len(),
        all_digits(text),
    ensures
        decimal_value(text.take(length)) <= decimal_value(text),
    decreases text.len() - length,
{
    if length < text.len() {
        lemma_prefix_value(text, length + 1);
        assert(text.take(length + 1).drop_last() =~= text.take(length));
        assert(is_digit(text[length]));
    } else {
        assert(text.take(length) =~= text);
    }
}

/// Whether `characters[from..to]` consists of ASCII digits alone.
pub fn are_digits(characters: &Vec<char>, from: usize, to: usize) -> (answer: bool)
    requires
        from <= to <= characters.len(),
    ensures
        answer == all_digits(characters@.subrange(from as int, to as int)),
{
    let ghost part = characters@.subrange(from as int, to as int);
    let mut i: usize = from;
    while i < to
        invariant
            from <= i <= to <= characters.len(),
            part == characters@.subrange(from as int, to as int),
            forall|k: int| 0 <= k < i - from ==> is_digit(#[trigger] part[k]),
        decreases to - i,
    {
        assert(part[i - from] == characters@[i as int]);
        if !('0' <= characters[i] && characters[i] <= '9') {
            return false;
        }
        i += 1;
    }
    true
}

/// The number that an ASCII digit stands for.
pub fn digit_number(character: char) -> (value: i64)
    requires
        is_digit(character),
    ensures
        value == digit_value(character),
        0 <= value < 10,
{
    (character as u32 - '0' as u32) as i64
}

/// The number that the digits `characters[from..to]` stand for, where an `i64` holds it.
pub fn parse_digits(characters: &Vec<char>, from: usize, to: usize) -> (result: Option<i64>)
    requires
        from <= to <= characters.len(),
        all_digits(characters@.subrange(from as int, to as int)),
    ensures
        ({
            let value = decimal_value(characters@.subrange(from as int, to as int));
            match result {
                Some(number) => number == value,
                None => value > i64::MAX,
            }
        }),
{
    let ghost part = characters@.subrange(from as int, to as int);
    let mut value: i64 = 0;
    let mut i: usize = from;
    assert(decimal_value(part.take(0)) == 0);
    while i < to
        invariant
            from <= i <= to <= characters.len(),
            part == characters@.subrange(from as int, to as int),
            all_digits(part),
            value == decimal_value(part.take(i - from)),
        decreases to - i,
    {
        assert(part[i - from] == characters@[i as int]);
        assert(part.take(i - from + 1).drop_last() =~= part.take(i - from));
        proof {
            lemma_prefix_value(part, i - from + 1);
        }
        let next = digit_number(characters[i]);
        value = match value.checked_mul(10) {
            Some(tenfold) => match tenfold.checked_add(next) {
                Some(sum) => sum,
                None => {
                    return None;
                },
            },
            None => {
                return None;
            },
        };
        i += 1;
    }
    assert(part.take(to - from) =~= part);
    Some(value)
}

} // verus!
