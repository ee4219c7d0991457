//! Sorting of records by texts.
use vstd::prelude::*;

use crate::text;
use crate::text::Text;

verus! {

/// What records are sorted by: the first text, then the second, then the third.
pub type Key = (Text, Text, Text);

/// Whether one key sorts before another.
pub open spec fn key_before(left: Key, right: Key) -> bool {
    ||| text::before(left.0, right.0)
    ||| left.0 == right.0 && text::before(left.1, right.1)
    ||| left.0 == right.0 && left.1 == right.1 && text::before(left.2, right.2)
}

/// A way to sort records.
pub trait Order<R: DeepView> {
    spec fn key(record: R::V) -> Key;

    fn comes_before(left: &R, right: &R) -> (answer: bool)
        ensures
            answer == key_before(Self::key(left.deep_view()), Self::key(right.deep_view())),
    ;
}

/// Whether one key sorts before another, of keys given as texts.
pub fn is_key_before(left: (&str, &str, &str), right: (&str, &str, &str)) -> (answer: bool)
    ensures
        answer == key_before((left.0@, left.1@, left.2@), (right.0@, right.1@, right.2@)),
{
    text::is_before(left.0, right.0) || (text::same(left.0, right.0) && (text::is_before(
        left.1,
        right.1,
    ) || (text::same(left.1, right.1) && text::is_before(left.2, right.2))))
}

/// Records in order with one more, which comes behind those with the same key.
pub open spec fn inserted<R: DeepView, O: Order<R>>(records: Seq<R::V>, record: R::V) -> Seq<R::V>
    decreases records.len(),
{
    if records.len() > 0 && key_before(O::key(record), O::key(records.last())) {
        inserted::<R, O>(records.drop_last(), record).push(records.last())
    } else {
        records.push(record)
    }
}

/// The records in ascending order, those with the same key as they came.
pub open spec fn sorted<R: DeepView, O: Order<R>>(records: Seq<R::V>) -> Seq<R::V>
    decreases records.len(),
{
    if records.len() == 0 {
        records
    } else {
        inserted::<R, O>(sorted::<R, O>(records.drop_last()), records.last())
    }
}

/// Whether no record comes behind one that it sorts before.
pub open spec fn is_sorted<R: DeepView, O: Order<R>>(records: Seq<R::V>) -> bool {
    forall|i: int, j: int|
        0 <= i < j < records.len() ==> !key_before(
            O::key(#[trigger] records[j]),
            O::key(#[trigger] records[i]),
        )
}

/// The order of keys holds between no key and itself, is transitive, and of two different keys
/// one sorts before the other.
pub proof fn lemma_key_order(left: Key, middle: Key, right: Key)
    ensures
        !key_before(left, left),
        key_before(left, middle) && key_before(middle, right) ==> key_before(left, right),
        left == middle || key_before(left, middle) || key_before(middle, left),
{
    text::lemma_before_irreflexive(left.0);
    text::lemma_before_irreflexive(left.1);
    text::lemma_before_irreflexive(left.2);
    text::lemma_before_total(left.0, middle.0);
    text::lemma_before_total(left.1, middle.1);
    text::lemma_before_total(left.2, middle.2);
    if text::before(left.0, middle.0) && text::before(middle.0, right.0) {
        text::lemma_before_transitive(left.0, middle.0, right.0);
    }
    if text::before(left.1, middle.1) && text::before(middle.1, right.1) {
        text::lemma_before_transitive(left.1, middle.1, right.1);
    }
    if text::before(left.2, middle.2) && text::before(middle.2, right.2) {
        text::lemma_before_transitive(left.2, middle.2, right.2);
    }
}

proof fn lemma_not_before(low: Key, middle: Key, high: Key)
    requires
        !key_before(middle, low),
        !key_before(high, middle),
    ensures
        !key_before(high, low),
{
    lemma_key_order(low, middle, high);
    lemma_key_order(middle, high, low);
    lemma_key_order(high, low, middle);
    lemma_key_order(low, high, middle);
}

proof fn lemma_inserted<R: DeepView, O: Order<R>>(records: Seq<R::V>, record: R::V)
    requires
        is_sorted::<R, O>(records),
    ensures
        is_sorted::<R, O>(inserted::<R, O>(records, record)),
        inserted::<R, O>(records, record).len() == records.len() + 1,
        inserted::<R, O>(records, record).to_multiset() == records.to_multiset().insert(record),
    decreases records.len(),
{
    broadcast use vstd::seq_lib::group_to_multiset_ensures;

    let result = inserted::<R, O>(records, record);
    if records.len() > 0 && key_before(O::key(record), O::key(records.last())) {
        let front = records.drop_last();
        assert forall|i: int| 0 <= i < front.len() implies front[i] == records[i] by {}
        assert(is_sorted::<R, O>(front)) by {
            assert forall|i: int, j: int| 0 <= i < j < front.len() implies !key_before(
                O::key(#[trigger] front[j]),
                O::key(#[trigger] front[i]),
            ) by {
                assert(front[i] == records[i] && front[j] == records[j]);
            }
        }
        lemma_inserted::<R, O>(front, record);
        let part = inserted::<R, O>(front, record);
        assert(records =~= front.push(records.last()));
        assert forall|i: int, j: int| 0 <= i < j < result.len() implies !key_before(
            O::key(#[trigger] result[j]),
            O::key(#[trigger] result[i]),
        ) by {
            if j == result.len() - 1 {
                assert(part.to_multiset().contains(part[i])) by {
                    assert(part.contains(part[i]));
                }
                if part[i] != record {
                    assert(front.to_multiset().contains(part[i]));
                    assert(front.contains(part[i]));
                    let k = choose|k: int| 0 <= k < front.len() && front[k] == part[i];
                    assert(records[k] == part[i]);
                    assert(!key_before(O::key(records[records.len() - 1]), O::key(records[k])));
                } else {
                    lemma_key_order(O::key(record), O::key(records.last()), O::key(record));
                    lemma_key_order(O::key(records.last()), O::key(record), O::key(records.last()));
                }
            } else {
                assert(result[i] == part[i] && result[j] == part[j]);
            }
        }
        assert(result.to_multiset() =~= records.to_multiset().insert(record));
    } else {
        assert forall|i: int, j: int| 0 <= i < j < result.len() implies !key_before(
            O::key(#[trigger] result[j]),
            O::key(#[trigger] result[i]),
        ) by {
            if j == result.len() - 1 {
                let last = records.len() - 1;
                if i < last {
                    assert(!key_before(O::key(records[last]), O::key(records[i])));
                } else {
                    lemma_key_order(O::key(records[i]), O::key(records[i]), O::key(records[i]));
                }
                lemma_not_before(O::key(result[i]), O::key(records.last()), O::key(record));
            } else {
                assert(result[i] == records[i] && result[j] == records[j]);
            }
        }
    }
}

/// Sorting orders the records, and neither adds nor loses one.
pub proof fn law_sorting_orders_all_records<R: DeepView, O: Order<R>>(records: Seq<R::V>)
    ensures
        is_sorted::<R, O>(sorted::<R, O>(records)),
        sorted::<R, O>(records).len() == records.len(),
        sorted::<R, O>(records).to_multiset() == records.to_multiset(),
    decreases records.len(),
{
    broadcast use vstd::seq_lib::group_to_multiset_ensures;

    if records.len() > 0 {
        let front = records.drop_last();
        law_sorting_orders_all_records::<R, O>(front);
        lemma_inserted::<R, O>(sorted::<R, O>(front), records.last());
        assert(records =~= front.push(records.last()));
    }
}

proof fn lemma_insertion_place<R: DeepView, O: Order<R>>(records: Seq<R::V>, record: R::V, place: int)
    requires
        0 <= place <= records.len(),
        forall|i: int|
            place <= i < records.len() ==> key_before(
                O::key(record),
                O::key(#[trigger] records[i]),
            ),
        place > 0 ==> !key_before(O::key(record), O::key(records[place - 1])),
    ensures
        inserted::<R, O>(records, record) == records.insert(place, record),
    decreases records.len(),
{
    if place < records.len() {
        let front = records.drop_last();
        assert(key_before(O::key(record), O::key(records[records.len() - 1])));
        assert forall|i: int| place <= i < front.len() implies key_before(
            O::key(record),
            O::key(#[trigger] front[i]),
        ) by {
            assert(front[i] == records[i]);
        }
        lemma_insertion_place::<R, O>(front, record, place);
        assert(records.insert(place, record) =~= front.insert(place, record).push(records.last()));
    } else {
        assert(records.insert(place, record) =~= records.push(record));
    }
}

/// Puts a record at its place among records in order.
fn insert<R: DeepView, O: Order<R>>(records: &mut Vec<R>, record: R)
    ensures
        final(records).deep_view() == inserted::<R, O>(old(records).deep_view(), record.deep_view()),
{
    let mut place = records.len();
    let ghost ordered = records.deep_view();
    while place > 0 && O::comes_before(&record, &records[place - 1])
        invariant
            place <= records.len(),
            ordered == records.deep_view(),
            forall|i: int|
                place <= i < ordered.len() ==> key_before(
                    O::key(record.deep_view()),
                    O::key(#[trigger] ordered[i]),
                ),
        decreases place,
    {
        assert(ordered[place - 1] == records@[place - 1].deep_view());
        place -= 1;
    }
    proof {
        if place > 0 {
            assert(ordered[place - 1] == records@[place - 1].deep_view());
        }
        lemma_insertion_place::<R, O>(ordered, record.deep_view(), place as int);
    }
    let ghost added = record.deep_view();
    records.insert(place, record);
    assert(records.deep_view() =~= ordered.insert(place as int, added));
}

/// Sorts records in ascending order.
pub fn sort<R: DeepView, O: Order<R>>(records: Vec<R>) -> (result: Vec<R>)
    ensures
        result.deep_view() == sorted::<R, O>(records.deep_view()),
{
    let ghost all = records.deep_view();
    let mut rest = records;
    let mut waiting: Vec<R> = Vec::new();
    while rest.len() > 0
        invariant
            all == rest.deep_view() + waiting.deep_view().reverse(),
        decreases rest.len(),
    {
        let ghost rest_before = rest.deep_view();
        let ghost waiting_before = waiting.deep_view();
        match rest.pop() {
            Some(record) => {
                assert(rest.deep_view() =~= rest_before.drop_last());
                assert(record.deep_view() == rest_before.last());
                waiting.push(record);
                assert(waiting.deep_view() =~= waiting_before.push(record.deep_view()));
                assert(rest.deep_view() + waiting.deep_view().reverse() =~= rest_before
                    + waiting_before.reverse());
            },
            None => {},
        }
    }
    assert(all =~= waiting.deep_view().reverse());
    let mut result: Vec<R> = Vec::new();
    assert(result.deep_view() =~= sorted::<R, O>(all.take(0)));
    while waiting.len() > 0
        invariant
            waiting.len() <= all.len(),
            waiting.deep_view() == all.skip(all.len() - waiting.len()).reverse(),
            result.deep_view() == sorted::<R, O>(all.take(all.len() - waiting.len())),
        decreases waiting.len(),
    {
        let ghost waiting_before = waiting.deep_view();
        let ghost taken = all.len() - waiting.len();
        match waiting.pop() {
            Some(record) => {
                assert(waiting.deep_view() =~= waiting_before.drop_last());
                assert(record.deep_view() == waiting_before.last());
                assert(record.deep_view() == all[taken]);
                assert(waiting.deep_view() =~= all.skip(taken + 1).reverse());
                assert(all.take(taken + 1).drop_last() =~= all.take(taken));
                insert::<R, O>(&mut result, record);
            },
            None => {},
        }
    }
    assert(all.take(all.len() as int) =~= all);
    result
}

/// Turns the order of records round.
pub fn reverse<R: DeepView>(records: Vec<R>) -> (result: Vec<R>)
    ensures
        result.deep_view() == records.deep_view().reverse(),
{
    let ghost all = records.deep_view();
    let mut rest = records;
    let mut result: Vec<R> = Vec::new();
    while rest.len() > 0
        invariant
            all.reverse() == result.deep_view() + rest.deep_view().reverse(),
        decreases rest.len(),
    {
        let ghost rest_before = rest.deep_view();
        let ghost result_before = result.deep_view();
        match rest.pop() {
            Some(record) => {
                assert(rest.deep_view() =~= rest_before.drop_last());
                assert(record.deep_view() == rest_before.last());
                result.push(record);
                assert(result.deep_view() =~= result_before.push(record.deep_view()));
                assert(result.deep_view() + rest.deep_view().reverse() =~= result_before
                    + rest_before.reverse());
            },
            None => {},
        }
    }
    assert(all.reverse() =~= result.deep_view());
    result
}

/// Texts in their own order.
pub struct ByText;

impl Order<String> for ByText {
    open spec fn key(record: Text) -> Key {
        (record, Seq::empty(), Seq::empty())
    }

    fn comes_before(left: &String, right: &String) -> (answer: bool) {
        assert(!text::before(Seq::<char>::empty(), Seq::<char>::empty()));
        text::is_before(left.as_str(), right.as_str())
    }
}

/// The different texts of a list, in ascending order.
pub open spec fn distinct(texts: Seq<Text>) -> Seq<Text>
    decreases texts.len(),
{
    if texts.len() == 0 {
        Seq::empty()
    } else {
        let found = distinct(texts.drop_last());
        if found.contains(texts.last()) {
            found
        } else {
            inserted::<String, ByText>(found, texts.last())
        }
    }
}

/// Whether each text sorts before the next.
pub open spec fn is_ascending(texts: Seq<Text>) -> bool {
    forall|i: int, j: int|
        0 <= i < j < texts.len() ==> text::before(#[trigger] texts[i], #[trigger] texts[j])
}

/// The different texts of a list are ascending, and are exactly those that occur in the list.
pub proof fn law_distinct_texts(texts: Seq<Text>)
    ensures
        is_ascending(distinct(texts)),
        distinct(texts).no_duplicates(),
        forall|text: Text| #[trigger] distinct(texts).contains(text) == texts.contains(text),
    decreases texts.len(),
{
    broadcast use vstd::seq_lib::group_to_multiset_ensures;

    let result = distinct(texts);
    if texts.len() > 0 {
        let front = texts.drop_last();
        let found = distinct(front);
        let last = texts.last();
        law_distinct_texts(front);
        assert(texts =~= front.push(last));
        assert forall|text: Text| texts.contains(text) == (front.contains(text) || text == last) by {
            if front.contains(text) {
                let k = choose|k: int| 0 <= k < front.len() && front[k] == text;
                assert(texts[k] == text);
            }
            assert(texts[texts.len() - 1] == last);
            if texts.contains(text) && text != last {
                let k = choose|k: int| 0 <= k < texts.len() && texts[k] == text;
                assert(front[k] == text);
            }
        }
        if !found.contains(last) {
            assert(is_sorted::<String, ByText>(found)) by {
                assert forall|i: int, j: int| 0 <= i < j < found.len() implies !key_before(
                    <ByText as Order<String>>::key(#[trigger] found[j]),
                    <ByText as Order<String>>::key(#[trigger] found[i]),
                ) by {
                    text::lemma_before_asymmetric(found[i], found[j]);
                }
            }
            lemma_inserted::<String, ByText>(found, last);
            assert forall|text: Text| #[trigger] result.contains(text) == (found.contains(text)
                || text == last) by {
                assert(result.contains(text) == (result.to_multiset().count(text) > 0));
                assert(found.contains(text) == (found.to_multiset().count(text) > 0));
            }
            lemma_no_duplicates_inserted(found, last, result);
            assert forall|i: int, j: int| 0 <= i < j < result.len() implies text::before(
                #[trigger] result[i],
                #[trigger] result[j],
            ) by {
                text::lemma_before_total(result[i], result[j]);
                assert(!key_before(
                    <ByText as Order<String>>::key(result[j]),
                    <ByText as Order<String>>::key(result[i]),
                ));
            }
        }
    }
}

proof fn lemma_no_duplicates_inserted(texts: Seq<Text>, added: Text, result: Seq<Text>)
    requires
        texts.no_duplicates(),
        !texts.contains(added),
        result.len() == texts.len() + 1,
        result.to_multiset() == texts.to_multiset().insert(added),
    ensures
        result.no_duplicates(),
{
    broadcast use vstd::seq_lib::group_to_multiset_ensures;

    texts.lemma_multiset_has_no_duplicates();
    assert forall|text: Text| result.to_multiset().contains(
        text,
    ) implies #[trigger] result.to_multiset().count(text) == 1 by {
        if texts.to_multiset().count(text) > 0 {
            assert(texts.contains(text));
            assert(texts.to_multiset().contains(text));
        }
        assert(texts.contains(added) == (texts.to_multiset().count(added) > 0));
    }
    result.lemma_multiset_has_no_duplicates_conv();
}

/// The different texts of a list, in ascending order.
pub fn distinct_texts(texts: &Vec<String>) -> (result: Vec<String>)
    ensures
        result.deep_view() == distinct(texts.deep_view()),
{
    let ghost all = texts.deep_view();
    let mut result: Vec<String> = Vec::new();
    let mut i: usize = 0;
    assert(result.deep_view() =~= distinct(all.take(0)));
    while i < texts.len()
        invariant
            all == texts.deep_view(),
            i <= texts.len(),
            result.deep_view() == distinct(all.take(i as int)),
        decreases texts.len() - i,
    {
        assert(all.take(i + 1).drop_last() =~= all.take(i as int));
        assert(all.take(i + 1).last() == texts@[i as int]@);
        if !contains(&result, texts[i].as_str()) {
            insert::<String, ByText>(&mut result, texts[i].clone());
        }
        i += 1;
    }
    assert(all.take(i as int) =~= all);
    result
}

/// Whether a text is one of a list.
pub fn contains(texts: &Vec<String>, text: &str) -> (answer: bool)
    ensures
        answer == texts.deep_view().contains(text@),
{
    let mut i: usize = 0;
    while i < texts.len()
        invariant
            i <= texts.len(),
            forall|j: int| 0 <= j < i ==> #[trigger] texts.deep_view()[j] != text@,
        decreases texts.len() - i,
    {
        assert(texts.deep_view()[i as int] == texts@[i as int]@);
        if text::same(texts[i].as_str(), text) {
            return true;
        }
        i += 1;
    }
    false
}

/// One page of a list: at most `limit` items behind the first `offset`.
pub open spec fn page<V>(items: Seq<V>, offset: int, limit: int) -> Seq<V> {
    let from = if offset < items.len() {
        offset
    } else {
        items.len() as int
    };
    let to = if from + limit < items.len() {
        from + limit
    } else {
        items.len() as int
    };
    items.subrange(from, to)
}

/// Takes one page out of a list.
pub fn take_page<R: DeepView>(items: Vec<R>, offset: i64, limit: i64) -> (result: Vec<R>)
    requires
        offset >= 0,
        limit >= 0,
    ensures
        result.deep_view() == page(items.deep_view(), offset as int, limit as int),
{
    let ghost all = items.deep_view();
    let count = items.len();
    let from: usize = if (offset as u64) < (count as u64) {
        offset as usize
    } else {
        count
    };
    let to: usize = if (limit as u64) < ((count - from) as u64) {
        from + limit as usize
    } else {
        count
    };
    let mut rest = items;
    let mut taken: Vec<R> = Vec::new();
    while rest.len() > from
        invariant
            from <= to <= all.len(),
            from <= rest.len() <= all.len(),
            rest.deep_view() == all.take(rest.len() as int),
            rest.len() >= to ==> taken.deep_view() == Seq::<R::V>::empty(),
            rest.len() < to ==> taken.deep_view() == all.subrange(
                rest.len() as int,
                to as int,
            ).reverse(),
        decreases rest.len(),
    {
        let ghost rest_before = rest.deep_view();
        let ghost taken_before = taken.deep_view();
        match rest.pop() {
            Some(record) => {
                assert(rest.deep_view() =~= rest_before.drop_last());
                assert(record.deep_view() == rest_before.last());
                assert(record.deep_view() == all[rest.len() as int]);
                assert(rest.deep_view() =~= all.take(rest.len() as int));
                if rest.len() < to {
                    taken.push(record);
                    assert(taken.deep_view() =~= taken_before.push(all[rest.len() as int]));
                    assert(taken.deep_view() =~= all.subrange(
                        rest.len() as int,
                        to as int,
                    ).reverse());
                }
            },
            None => {},
        }
    }
    let result = reverse(taken);
    assert(result.deep_view() =~= all.subrange(from as int, to as int));
    result
}

/// Two pages, of which the second begins where the first ends, are one longer page.
pub proof fn law_pages_join<V>(items: Seq<V>, offset: int, first: int, second: int)
    requires
        offset >= 0,
        first >= 0,
        second >= 0,
    ensures
        page(items, offset, first) + page(items, offset + first, second) == page(
            items,
            offset,
            first + second,
        ),
        page(items, 0, items.len() as int) == items,
{
    assert(page(items, offset, first) + page(items, offset + first, second) =~= page(
        items,
        offset,
        first + second,
    ));
    assert(page(items, 0, items.len() as int) =~= items);
}

} // verus!
