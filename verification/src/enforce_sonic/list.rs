//! Comma-separated list fields, such as the `ports` of an `ACL_TABLE`.

use vstd::prelude::*;

verus! {

/// Reading a list from the left: the items that are complete, and the one that is
/// being read. Empty items do not count.
pub open spec fn reading(s: Seq<char>) -> (Seq<Seq<char>>, Seq<char>)
    decreases s.len(),
{
    if s.len() == 0 {
        (Seq::empty(), Seq::empty())
    } else {
        let (done, current) = reading(s.drop_last());
        if s.last() == ',' {
            (flushed(done, current), Seq::empty())
        } else {
            (done, current.push(s.last()))
        }
    }
}

/// The items once the current one is complete.
pub open spec fn flushed(done: Seq<Seq<char>>, current: Seq<char>) -> Seq<Seq<char>> {
    if current.len() == 0 {
        done
    } else {
        done.push(current)
    }
}

/// The items of a comma-separated list, without empty ones.
pub open spec fn items(s: Seq<char>) -> Seq<Seq<char>> {
    let (done, current) = reading(s);
    flushed(done, current)
}

/// The comma-separated list of some items.
pub open spec fn joined(xs: Seq<Seq<char>>) -> Seq<char>
    decreases xs.len(),
{
    if xs.len() == 0 {
        Seq::empty()
    } else if xs.len() == 1 {
        xs[0]
    } else {
        joined(xs.drop_last()) + seq![','] + xs.last()
    }
}

/// Items with `value` among them: appended, unless it is there already.
pub open spec fn with_item(xs: Seq<Seq<char>>, value: Seq<char>) -> Seq<Seq<char>> {
    if xs.contains(value) {
        xs
    } else {
        xs.push(value)
    }
}

/// Items without any `value`.
pub open spec fn without_item(xs: Seq<Seq<char>>, value: Seq<char>) -> Seq<Seq<char>> {
    xs.filter(|x: Seq<char>| x != value)
}

/// What each text in a list holds.
pub open spec fn text_views(xs: Seq<String>) -> Seq<Seq<char>> {
    Seq::new(xs.len(), |i: int| xs[i]@)
}

fn split_items(s: &str) -> (r: Vec<String>)
    ensures
        text_views(r@) == items(s@),
{
    let mut done: Vec<String> = Vec::new();
    let mut current = String::new();
    assert(text_views(done@) =~= Seq::<Seq<char>>::empty());
    for c in it: s.chars()
        invariant
            it.seq() == s@,
            (text_views(done@), current@) == reading(s@.take(it.index())),
    {
        proof {
            assert(s@.take(it.index() + 1).drop_last() =~= s@.take(it.index()));
        }
        let ghost before = text_views(done@);
        if c == ',' {
            if !current.as_str().is_empty() {
                done.push(current.clone());
                assert(text_views(done@) =~= before.push(current@));
            }
            current = String::new();
        } else {
            current.push(c);
        }
    }
    assert(s@.take(s@.len() as int) =~= s@);
    let ghost before = text_views(done@);
    if !current.as_str().is_empty() {
        done.push(current.clone());
        assert(text_views(done@) =~= before.push(current@));
    }
    done
}

fn join_items(xs: &Vec<String>) -> (r: String)
    ensures
        r@ == joined(text_views(xs@)),
{
    let mut out = String::new();
    let mut i: usize = 0;
    let ghost all = text_views(xs@);
    assert(out@ =~= joined(all.take(0)));
    while i < xs.len()
        invariant
            i <= xs.len(),
            all == text_views(xs@),
            out@ == joined(all.take(i as int)),
        decreases xs.len() - i,
    {
        proof {
            assert(all.take(i + 1).drop_last() =~= all.take(i as int));
            assert(all.take(i + 1).last() == xs@[i as int]@);
        }
        let ghost before = out@;
        if i > 0 {
            out.push(',');
        }
        out.append(xs[i].as_str());
        assert(out@ =~= joined(all.take(i + 1)));
        i += 1;
    }
    assert(all.take(i as int) =~= all);
    out
}

/// The list with `value` added at its end, unless it is in it already. A field that
/// is not there is an empty list.
pub fn list_add(current: Option<&str>, value: &str) -> (r: String)
    ensures
        r@ == joined(
            with_item(
                match current {
                    Some(s) => items(s@),
                    None => Seq::empty(),
                },
                value@,
            ),
        ),
{
    let mut xs: Vec<String> = match current {
        Some(s) => split_items(s),
        None => Vec::new(),
    };
    let ghost before = text_views(xs@);
    assert(current is None ==> before =~= Seq::<Seq<char>>::empty());
    let wanted = value.to_owned();
    let mut found = false;
    let mut i: usize = 0;
    while i < xs.len()
        invariant
            i <= xs.len(),
            before == text_views(xs@),
            wanted@ == value@,
            found ==> before.contains(value@),
            !found ==> forall|j: int| 0 <= j < i ==> #[trigger] before[j] != value@,
        decreases xs.len() - i,
    {
        assert(before[i as int] == xs@[i as int]@);
        if xs[i] == wanted {
            found = true;
        }
        i += 1;
    }
    if !found {
        assert(!before.contains(value@));
        xs.push(wanted);
        assert(text_views(xs@) =~= before.push(value@));
    }
    join_items(&xs)
}

/// The list without `value`.
pub fn list_remove(current: &str, value: &str) -> (r: String)
    ensures
        r@ == joined(without_item(items(current@), value@)),
{
    let xs = split_items(current);
    let ghost all = text_views(xs@);
    let unwanted = value.to_owned();
    let mut kept: Vec<String> = Vec::new();
    let mut i: usize = 0;
    assert(text_views(kept@) =~= without_item(all.take(0), value@)) by {
        reveal(Seq::filter);
    }
    while i < xs.len()
        invariant
            i <= xs.len(),
            all == text_views(xs@),
            unwanted@ == value@,
            text_views(kept@) == without_item(all.take(i as int), value@),
        decreases xs.len() - i,
    {
        let ghost before = text_views(kept@);
        proof {
            reveal(Seq::filter);
            assert(all.take(i + 1).drop_last() =~= all.take(i as int));
            assert(all.take(i + 1).last() == xs@[i as int]@);
        }
        if !(xs[i] == unwanted) {
            kept.push(xs[i].clone());
            assert(text_views(kept@) =~= before.push(xs@[i as int]@));
        }
        i += 1;
    }
    assert(all.take(i as int) =~= all);
    join_items(&kept)
}

/// An item that a list can hold: not empty, and without a comma.
pub open spec fn plain_item(x: Seq<char>) -> bool {
    x.len() > 0 && !x.contains(',')
}

pub open spec fn plain_items(xs: Seq<Seq<char>>) -> bool {
    forall|i: int| 0 <= i < xs.len() ==> plain_item(#[trigger] xs[i])
}

/// Reading on through a run of characters without a comma.
proof fn lemma_reading_run(s: Seq<char>, x: Seq<char>)
    requires
        !x.contains(','),
    ensures
        reading(s + x) == (reading(s).0, reading(s).1 + x),
    decreases x.len(),
{
    if x.len() == 0 {
        assert(s + x =~= s);
        assert(reading(s).1 + x =~= reading(s).1);
    } else {
        assert forall|i: int| 0 <= i < x.drop_last().len() implies x.drop_last()[i] != ',' by {
            assert(x.contains(x[i]));
        }
        lemma_reading_run(s, x.drop_last());
        assert((s + x).drop_last() =~= s + x.drop_last());
        assert((s + x).last() == x.last());
        assert(x.contains(x.last()));
        assert((reading(s).1 + x.drop_last()).push(x.last()) =~= reading(s).1 + x);
    }
}

/// The items that a list is read as are plain.
proof fn lemma_reading_plain(s: Seq<char>)
    ensures
        plain_items(reading(s).0),
        !reading(s).1.contains(','),
        plain_items(items(s)),
    decreases s.len(),
{
    if s.len() > 0 {
        lemma_reading_plain(s.drop_last());
    }
}

/// A list of plain items is read as those items.
pub proof fn law_list_round_trip(xs: Seq<Seq<char>>)
    requires
        plain_items(xs),
    ensures
        items(joined(xs)) == xs,
    decreases xs.len(),
{
    if xs.len() == 0 {
        assert(items(joined(xs)) =~= xs);
    } else if xs.len() == 1 {
        let x = xs[0];
        assert(plain_item(x));
        lemma_reading_run(Seq::empty(), x);
        assert(Seq::<char>::empty() + x =~= x);
        assert(items(joined(xs)) =~= xs);
    } else {
        let (front, x) = (xs.drop_last(), xs.last());
        assert(plain_item(x));
        law_list_round_trip(front);
        let s = joined(front) + seq![','];
        assert(s.drop_last() =~= joined(front));
        assert(reading(s) == (items(joined(front)), Seq::<char>::empty()));
        lemma_reading_run(s, x);
        assert(Seq::<char>::empty() + x =~= x);
        assert(items(joined(xs)) =~= xs);
    }
}

/// Adding an item puts it into the list, keeps every item that was there, adds no
/// other, and does nothing the second time.
pub proof fn law_add_binds(s: Seq<char>, value: Seq<char>)
    requires
        plain_item(value),
    ensures
        ({
            let t = joined(with_item(items(s), value));
            &&& items(t).contains(value)
            &&& forall|x: Seq<char>|
                x != value ==> items(t).contains(x) == #[trigger] items(s).contains(x)
            &&& joined(with_item(items(t), value)) == t
        }),
{
    let xs = with_item(items(s), value);
    lemma_reading_plain(s);
    law_list_round_trip(xs);
    if !items(s).contains(value) {
        assert(xs.last() == value);
        assert forall|x: Seq<char>| x != value implies xs.contains(x) == #[trigger] items(s).contains(
            x,
        ) by {
            if items(s).contains(x) {
                let i = choose|i: int| 0 <= i < items(s).len() && items(s)[i] == x;
                assert(xs[i] == x);
            }
        }
    }
}

/// Removing an item takes it out of the list and leaves every other item in.
pub proof fn law_remove_unbinds(s: Seq<char>, value: Seq<char>)
    ensures
        ({
            let t = joined(without_item(items(s), value));
            &&& !items(t).contains(value)
            &&& forall|x: Seq<char>|
                x != value ==> items(t).contains(x) == #[trigger] items(s).contains(x)
        }),
{
    let xs = without_item(items(s), value);
    lemma_reading_plain(s);
    lemma_without(items(s), value);
    assert forall|i: int| 0 <= i < xs.len() implies plain_item(#[trigger] xs[i]) by {
        assert(xs.contains(xs[i]));
        assert(items(s).contains(xs[i]));
    }
    law_list_round_trip(xs);
}

proof fn lemma_without(xs: Seq<Seq<char>>, value: Seq<char>)
    ensures
        !without_item(xs, value).contains(value),
        forall|x: Seq<char>|
            x != value ==> #[trigger] without_item(xs, value).contains(x) == xs.contains(x),
        forall|x: Seq<char>|
            x != value ==> without_item(xs, value).contains(x) == #[trigger] xs.contains(x),
    decreases xs.len(),
{
    reveal(Seq::filter);
    if xs.len() > 0 {
        let (front, last) = (xs.drop_last(), xs.last());
        lemma_without(front, value);
        let rest = without_item(front, value);
        let all = without_item(xs, value);
        assert forall|x: Seq<char>| x != value implies #[trigger] all.contains(x) == xs.contains(x) by {
            if front.contains(x) {
                let i = choose|i: int| 0 <= i < front.len() && front[i] == x;
                assert(xs[i] == x);
                let j = choose|j: int| 0 <= j < rest.len() && rest[j] == x;
                assert(all[j] == x);
            }
            if x == last {
                assert(xs[xs.len() - 1] == x);
                assert(all[all.len() - 1] == x);
            }
            if xs.contains(x) && x != last {
                let i = choose|i: int| 0 <= i < xs.len() && xs[i] == x;
                assert(front[i] == x);
            }
            if all.contains(x) && x != last {
                let j = choose|j: int| 0 <= j < all.len() && all[j] == x;
                assert(rest[j] == x);
            }
        }
    }
}

proof fn lemma_reading_after_comma(s: Seq<char>, t: Seq<char>)
    ensures
        reading(s + seq![','] + t) == (items(s) + reading(t).0, reading(t).1),
    decreases t.len(),
{
    let all = s + seq![','] + t;
    if t.len() == 0 {
        assert(all.drop_last() =~= s);
        assert(all.last() == ',');
        assert(items(s) + reading(t).0 =~= items(s));
    } else {
        assert(all.drop_last() =~= s + seq![','] + t.drop_last());
        assert(all.last() == t.last());
        lemma_reading_after_comma(s, t.drop_last());
        let (done, current) = reading(t.drop_last());
        assert(flushed(items(s) + done, current) =~= items(s) + flushed(done, current));
    }
}

/// A comma ends an item and does nothing else: the items of a list are those before it and
/// those after it. A text without one is one item, unless it is empty.
pub proof fn law_commas_separate(s: Seq<char>, t: Seq<char>)
    ensures
        items(s + seq![','] + t) == items(s) + items(t),
        !t.contains(',') && t.len() > 0 ==> items(t) == seq![t],
        items(Seq::<char>::empty()).len() == 0,
{
    lemma_reading_after_comma(s, t);
    let (done, current) = reading(t);
    assert(flushed(items(s) + done, current) =~= items(s) + flushed(done, current));
    if !t.contains(',') && t.len() > 0 {
        lemma_reading_run(Seq::empty(), t);
        assert(Seq::<char>::empty() + t =~= t);
        assert(items(t) =~= seq![t]);
    }
}

/// An item that is added goes to the end, unless it is there already; the others stay in
/// their order.
pub proof fn law_added_items_go_last(s: Seq<char>, value: Seq<char>)
    requires
        plain_item(value),
    ensures
        items(joined(with_item(items(s), value))) == (if items(s).contains(value) {
            items(s)
        } else {
            items(s).push(value)
        }),
{
    lemma_reading_plain(s);
    law_list_round_trip(with_item(items(s), value));
}

} // verus!
