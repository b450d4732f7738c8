//! Tag filters: which entries of a plan are compiled and which are left out.

use vstd::prelude::*;
use crate::error::{Error, ErrorKind};
use crate::text::{
    chars_of, lemma_text_lt_order, precedes, split, split_spec, string_of, text_lt, trim,
    trim_spec,
};
use crate::value::{array_field, items_model, strings, Json, Value};

verus! {

/// The tags that a comma-separated list names: its pieces, each without the
/// white space around it.
pub open spec fn tag_list(s: Seq<char>) -> Seq<Seq<char>> {
    split_spec(s, ',').map_values(|piece: Seq<char>| trim_spec(piece))
}

/// Whether the tags `items` of an entry hold the tag `tag`. A tag that is no
/// string counts for nothing.
pub open spec fn is_tagged(items: Seq<Json>, tag: Seq<char>) -> bool {
    items.contains(Json::Text(tag))
}

/// Whether one of the tags of `list` is among the tags `items` of an entry.
pub open spec fn intersects(list: Seq<Seq<char>>, items: Seq<Json>) -> bool {
    exists|k: int| 0 <= k < list.len() && is_tagged(items, #[trigger] list[k])
}

/// The first tag of `a` that `b` holds too.
pub open spec fn first_common(a: Seq<Seq<char>>, b: Seq<Seq<char>>, tag: Seq<char>) -> bool {
    exists|k: int|
        0 <= k < a.len() && #[trigger] a[k] == tag && b.contains(tag) && forall|j: int|
            0 <= j < k ==> !b.contains(#[trigger] a[j])
}

/// Whether the two lists have a tag in common.
pub open spec fn overlap(a: Seq<Seq<char>>, b: Seq<Seq<char>>) -> bool {
    exists|k: int| 0 <= k < a.len() && b.contains(#[trigger] a[k])
}

/// Whether the filter leaves the entry `item` out of the plan.
///
/// An entry without a list of tags is left out exactly when tags are asked
/// for. One with tags is judged by the first of these that applies: it has a
/// tag that is to be skipped: out; it has the tag `never` and that tag is not
/// asked for: out; it has a tag that is asked for: in; it has the tag
/// `always`: in; otherwise it is out exactly when tags are asked for.
pub open spec fn skips(
    tags: Option<Seq<Seq<char>>>,
    skip_tags: Option<Seq<Seq<char>>>,
    item: Json,
) -> bool {
    match array_field(item, "tags"@) {
        None => tags is Some,
        Some(items) => {
            if skip_tags is Some && intersects(skip_tags->0, items) {
                true
            } else if is_tagged(items, "never"@) && !(tags is Some && tags->0.contains(
                "never"@,
            )) {
                true
            } else if tags is Some && intersects(tags->0, items) {
                false
            } else if is_tagged(items, "always"@) {
                false
            } else {
                tags is Some
            }
        },
    }
}

/// The tags to compile and the tags to leave out.
#[derive(Debug, PartialEq, Eq)]
pub struct Tags {
    pub tags: Option<Vec<String>>,
    pub skip_tags: Option<Vec<String>>,
}

/// The tags that `list` holds.
pub open spec fn tags_of(list: Option<Vec<String>>) -> Option<Seq<Seq<char>>> {
    match list {
        Some(v) => Some(strings(v@)),
        None => None,
    }
}

/// Whether `list` holds `tag`.
fn holds(list: &Vec<String>, tag: &str) -> (r: bool)
    ensures
        r == strings(list@).contains(tag@),
{
    let wanted = tag.to_owned();
    let mut i: usize = 0;
    while i < list.len()
        invariant
            i <= list.len(),
            wanted@ == tag@,
            forall|j: int| 0 <= j < i ==> strings(list@)[j] != tag@,
        decreases list.len() - i,
    {
        if list[i] == wanted {
            assert(strings(list@)[i as int] == tag@);
            return true;
        }
        i += 1;
    }
    false
}

/// Whether the tags `items` of an entry hold `tag`.
fn tagged(items: &Vec<Value>, tag: &str) -> (r: bool)
    ensures
        r == is_tagged(items_model(items@), tag@),
{
    let wanted = tag.to_owned();
    let mut i: usize = 0;
    while i < items.len()
        invariant
            i <= items.len(),
            wanted@ == tag@,
            forall|j: int| 0 <= j < i ==> items_model(items@)[j] != Json::Text(tag@),
        decreases items.len() - i,
    {
        match &items[i] {
            Value::Text(t) => {
                if *t == wanted {
                    assert(items_model(items@)[i as int] == Json::Text(tag@));
                    return true;
                }
            },
            _ => {},
        }
        i += 1;
    }
    false
}

/// Whether one of the tags of `list` is among the tags `items` of an entry.
fn any_tagged(list: &Vec<String>, items: &Vec<Value>) -> (r: bool)
    ensures
        r == intersects(strings(list@), items_model(items@)),
{
    let mut i: usize = 0;
    while i < list.len()
        invariant
            i <= list.len(),
            forall|j: int|
                0 <= j < i ==> !is_tagged(items_model(items@), #[trigger] strings(list@)[j]),
        decreases list.len() - i,
    {
        if tagged(items, list[i].as_str()) {
            assert(is_tagged(items_model(items@), strings(list@)[i as int]));
            return true;
        }
        i += 1;
    }
    false
}

/// The first tag of `a` that `b` holds too.
fn common(a: &Vec<String>, b: &Vec<String>) -> (r: Option<usize>)
    ensures
        match r {
            Some(k) => k < a.len() && strings(b@).contains(a@[k as int]@) && forall|j: int|
                0 <= j < k ==> !strings(b@).contains(#[trigger] strings(a@)[j]),
            None => !overlap(strings(a@), strings(b@)),
        },
{
    let mut i: usize = 0;
    while i < a.len()
        invariant
            i <= a.len(),
            forall|j: int| 0 <= j < i ==> !strings(b@).contains(#[trigger] strings(a@)[j]),
        decreases a.len() - i,
    {
        if holds(b, a[i].as_str()) {
            return Some(i);
        }
        i += 1;
    }
    None
}

/// The tags that the comma-separated list `s` names.
pub fn parse_tags(s: &str) -> (r: Vec<String>)
    ensures
        strings(r@) == tag_list(s@),
{
    let pieces = split(&chars_of(s), ',');
    let mut out: Vec<String> = Vec::new();
    let mut i: usize = 0;
    while i < pieces.len()
        invariant
            i <= pieces.len(),
            pieces@.len() == split_spec(s@, ',').len(),
            forall|k: int| 0 <= k < pieces@.len() ==> #[trigger] pieces@[k]@ == split_spec(
                s@,
                ',',
            )[k],
            out@.len() == i,
            forall|k: int| 0 <= k < i ==> #[trigger] out@[k]@ == tag_list(s@)[k],
        decreases pieces.len() - i,
    {
        out.push(string_of(&trim(&pieces[i])));
        i += 1;
    }
    assert(strings(out@) =~= tag_list(s@));
    out
}

impl Tags {
    /// The tags asked for.
    pub open spec fn wanted(&self) -> Option<Seq<Seq<char>>> {
        tags_of(self.tags)
    }

    /// The tags to leave out.
    pub open spec fn unwanted(&self) -> Option<Seq<Seq<char>>> {
        tags_of(self.skip_tags)
    }

    /// The filter that the two comma-separated lists ask for. It is refused
    /// where a tag stands in both; the error names the first such tag of the
    /// tags asked for.
    pub fn new(tags_option: Option<&str>, skip_tags_option: Option<&str>) -> (r: Result<
        Tags,
        Error,
    >)
        ensures
            match r {
                Ok(t) => {
                    &&& t.wanted() == match tags_option {
                        Some(s) => Some(tag_list(s@)),
                        None => None,
                    }
                    &&& t.unwanted() == match skip_tags_option {
                        Some(s) => Some(tag_list(s@)),
                        None => None,
                    }
                    &&& !(tags_option is Some && skip_tags_option is Some && overlap(
                        tag_list(tags_option->0@),
                        tag_list(skip_tags_option->0@),
                    ))
                },
                Err(e) => {
                    &&& tags_option is Some
                    &&& skip_tags_option is Some
                    &&& overlap(tag_list(tags_option->0@), tag_list(skip_tags_option->0@))
                    &&& e.kind == ErrorKind::ConflictingTags
                    &&& first_common(
                        tag_list(tags_option->0@),
                        tag_list(skip_tags_option->0@),
                        e.detail@,
                    )
                },
            },
    {
        let tags: Option<Vec<String>> = match tags_option {
            Some(s) => Some(parse_tags(s)),
            None => None,
        };
        let skip_tags: Option<Vec<String>> = match skip_tags_option {
            Some(s) => Some(parse_tags(s)),
            None => None,
        };
        match (&tags, &skip_tags) {
            (Some(t), Some(s)) => {
                match common(t, s) {
                    Some(k) => {
                        assert(strings(t@)[k as int] == t@[k as int]@);
                        return Err(Error::new(ErrorKind::ConflictingTags, t[k].clone()));
                    },
                    None => {},
                }
            },
            _ => {},
        }
        Ok(Tags { tags, skip_tags })
    }

    /// Whether the filter leaves the entry `item` out of the plan.
    pub fn should_skip_item(&self, item: &Value) -> (r: bool)
        ensures
            r == skips(self.wanted(), self.unwanted(), item@),
    {
        match item.get_sequence("tags") {
            Some(item_tags) => {
                match &self.skip_tags {
                    Some(s) => {
                        if any_tagged(s, item_tags) {
                            return true;
                        }
                    },
                    None => {},
                }
                let never = tagged(item_tags, "never");
                match &self.tags {
                    Some(t) => {
                        if never && !holds(t, "never") {
                            return true;
                        }
                        if any_tagged(t, item_tags) {
                            return false;
                        }
                    },
                    None => {
                        if never {
                            return true;
                        }
                    },
                }
                if tagged(item_tags, "always") {
                    return false;
                }
                self.tags.is_some()
            },
            None => self.tags.is_some(),
        }
    }
}

/// An entry tagged `never` is left out when no tags are asked for, and it is
/// compiled only when the tags asked for name `never`.
pub proof fn law_never(
    tags: Option<Seq<Seq<char>>>,
    skip_tags: Option<Seq<Seq<char>>>,
    item: Json,
)
    requires
        array_field(item, "tags"@) matches Some(items) && is_tagged(items, "never"@),
    ensures
        tags is None ==> skips(tags, skip_tags, item),
        !skips(tags, skip_tags, item) ==> tags is Some && tags->0.contains("never"@),
        tags is Some && tags->0.contains("never"@) && !(skip_tags is Some && intersects(
            skip_tags->0,
            array_field(item, "tags"@)->0,
        )) ==> !skips(tags, skip_tags, item),
{
    if tags is Some && tags->0.contains("never"@) {
        let items = array_field(item, "tags"@)->0;
        let k = choose|k: int| 0 <= k < tags->0.len() && tags->0[k] == "never"@;
        assert(is_tagged(items, tags->0[k]));
    }
}

/// An entry tagged `always` is compiled whatever tags are asked for, unless
/// one of its tags is to be skipped or it has the tag `never` and that tag is
/// not asked for.
pub proof fn law_always(
    tags: Option<Seq<Seq<char>>>,
    skip_tags: Option<Seq<Seq<char>>>,
    item: Json,
)
    requires
        array_field(item, "tags"@) matches Some(items) && is_tagged(items, "always"@),
        !(skip_tags is Some && intersects(skip_tags->0, array_field(item, "tags"@)->0)),
        is_tagged(array_field(item, "tags"@)->0, "never"@) ==> tags is Some && tags->0.contains(
            "never"@,
        ),
    ensures
        !skips(tags, skip_tags, item),
{
    let items = array_field(item, "tags"@)->0;
    if is_tagged(items, "never"@) {
        let k = choose|k: int| 0 <= k < tags->0.len() && tags->0[k] == "never"@;
        assert(is_tagged(items, tags->0[k]));
    }
}

/// The entries among the first `n` of `items` that the filter does not leave
/// out, in their order.
pub open spec fn listed(
    items: Seq<Json>,
    tags: Option<Seq<Seq<char>>>,
    skip_tags: Option<Seq<Seq<char>>>,
    n: nat,
) -> Seq<Json>
    decreases n,
{
    if n == 0 || n > items.len() {
        Seq::empty()
    } else {
        let head = listed(items, tags, skip_tags, (n - 1) as nat);
        if skips(tags, skip_tags, items[n - 1]) {
            head
        } else {
            head.push(items[n - 1])
        }
    }
}

/// The entries of a plan that the filter does not leave out, in their order.
pub fn list_benchmark_file_tasks(items: &Vec<Value>, tags: &Tags) -> (r: Vec<Value>)
    ensures
        items_model(r@) == listed(
            items_model(items@),
            tags.wanted(),
            tags.unwanted(),
            items@.len(),
        ),
{
    let mut out: Vec<Value> = Vec::new();
    let mut i: usize = 0;
    assert(items_model(out@) =~= Seq::<Json>::empty());
    while i < items.len()
        invariant
            i <= items.len(),
            items_model(out@) == listed(
                items_model(items@),
                tags.wanted(),
                tags.unwanted(),
                i as nat,
            ),
        decreases items.len() - i,
    {
        assert(items_model(items@)[i as int] == items@[i as int]@);
        if !tags.should_skip_item(&items[i]) {
            let ghost before = items_model(out@);
            out.push(items[i].clone());
            assert(items_model(out@) =~= before.push(items@[i as int]@));
        }
        i += 1;
    }
    out
}

/// Whether the tags are in the order of strings, none twice.
pub open spec fn ascending(tags: Seq<Seq<char>>) -> bool {
    forall|i: int, j: int| 0 <= i < j < tags.len() ==> text_lt(#[trigger] tags[i], #[trigger] tags[j])
}

/// Whether one of the first `n` tags of `items` is the tag `tag`.
pub open spec fn seen_in(items: Seq<Json>, n: nat, tag: Seq<char>) -> bool {
    exists|k: int| 0 <= k < n && k < items.len() && #[trigger] items[k] == Json::Text(tag)
}

/// Whether one of the first `n` of `items` has the tag `tag`.
pub open spec fn tag_among(items: Seq<Json>, n: nat, tag: Seq<char>) -> bool {
    exists|i: int|
        0 <= i < n && i < items.len() && #[trigger] array_field(items[i], "tags"@) is Some
            && is_tagged(array_field(items[i], "tags"@)->0, tag)
}

proof fn lemma_seen_next(items: Seq<Json>, n: nat, tag: Seq<char>)
    requires
        n < items.len(),
    ensures
        seen_in(items, n + 1, tag) <==> (seen_in(items, n, tag) || items[n as int] == Json::Text(
            tag,
        )),
        !seen_in(items, 0, tag),
        seen_in(items, items.len(), tag) <==> is_tagged(items, tag),
{
    if seen_in(items, n + 1, tag) {
        let k = choose|k: int|
            0 <= k < n + 1 && k < items.len() && #[trigger] items[k] == Json::Text(tag);
        if k < n {
            assert(seen_in(items, n, tag));
        }
    }
    if seen_in(items, n, tag) {
        let k = choose|k: int| 0 <= k < n && k < items.len() && #[trigger] items[k] == Json::Text(
            tag,
        );
        assert(0 <= k < n + 1 && items[k] == Json::Text(tag));
    }
    if items[n as int] == Json::Text(tag) {
        assert(0 <= n < n + 1 && items[n as int] == Json::Text(tag));
    }
    lemma_seen_all(items, tag);
}

proof fn lemma_seen_all(items: Seq<Json>, tag: Seq<char>)
    ensures
        seen_in(items, items.len(), tag) <==> is_tagged(items, tag),
{
    if is_tagged(items, tag) {
        let k = choose|k: int| 0 <= k < items.len() && items[k] == Json::Text(tag);
        assert(items[k] == Json::Text(tag));
    }
    if seen_in(items, items.len(), tag) {
        let k = choose|k: int|
            0 <= k < items.len() && k < items.len() && #[trigger] items[k] == Json::Text(tag);
        assert(items.contains(Json::Text(tag)));
    }
}

proof fn lemma_among_next(items: Seq<Json>, n: nat, tag: Seq<char>)
    requires
        n < items.len(),
    ensures
        tag_among(items, n + 1, tag) <==> (tag_among(items, n, tag) || (array_field(
            items[n as int],
            "tags"@,
        ) is Some && is_tagged(array_field(items[n as int], "tags"@)->0, tag))),
        !tag_among(items, 0, tag),
{
    if tag_among(items, n + 1, tag) {
        let k = choose|k: int|
            0 <= k < n + 1 && k < items.len() && #[trigger] array_field(items[k], "tags"@) is Some
                && is_tagged(array_field(items[k], "tags"@)->0, tag);
        if k < n {
            assert(tag_among(items, n, tag));
        }
    }
    if tag_among(items, n, tag) {
        let k = choose|k: int|
            0 <= k < n && k < items.len() && #[trigger] array_field(items[k], "tags"@) is Some
                && is_tagged(array_field(items[k], "tags"@)->0, tag);
        assert(0 <= k < n + 1 && array_field(items[k], "tags"@) is Some);
    }
    if array_field(items[n as int], "tags"@) is Some && is_tagged(
        array_field(items[n as int], "tags"@)->0,
        tag,
    ) {
        assert(0 <= n < n + 1 && array_field(items[n as int], "tags"@) is Some);
    }
}

/// Puts `tag` into the ascending list `tags`, unless it is there.
fn note_tag(tags: &mut Vec<String>, tag: &String)
    requires
        ascending(strings(old(tags)@)),
    ensures
        ascending(strings(final(tags)@)),
        forall|t: Seq<char>|
            #![trigger strings(final(tags)@).contains(t)]
            strings(final(tags)@).contains(t) <==> (strings(old(tags)@).contains(t) || t == tag@),
{
    let wanted = chars_of(tag.as_str());
    let ghost before = strings(tags@);
    let mut i: usize = 0;
    while i < tags.len() && precedes(&chars_of(tags[i].as_str()), &wanted)
        invariant
            i <= tags.len(),
            wanted@ == tag@,
            before == strings(tags@),
            *tags == *old(tags),
            forall|j: int| 0 <= j < i ==> text_lt(#[trigger] before[j], tag@),
        decreases tags.len() - i,
    {
        assert(before[i as int] == tags@[i as int]@);
        i += 1;
    }
    if i < tags.len() && *tag == tags[i] {
        assert(before[i as int] == tag@);
        assert forall|t: Seq<char>|
            #![trigger strings(tags@).contains(t)]
            strings(tags@).contains(t) <==> (before.contains(t) || t == tag@) by {}
        return;
    }
    proof {
        if i < tags.len() {
            assert(before[i as int] == tags@[i as int]@);
            lemma_text_lt_order(before[i as int], tag@, tag@);
            assert(text_lt(tag@, before[i as int]));
        }
    }
    tags.insert(i, tag.clone());
    let ghost after = strings(tags@);
    assert(after =~= before.insert(i as int, tag@));
    assert forall|x: int, y: int| 0 <= x < y < after.len() implies text_lt(
        #[trigger] after[x],
        #[trigger] after[y],
    ) by {
        if y < i {
            assert(after[x] == before[x] && after[y] == before[y]);
        } else if y == i {
            assert(after[x] == before[x] && after[y] == tag@);
        } else if x == i {
            assert(after[x] == tag@ && after[y] == before[y - 1]);
            if y - 1 > i {
                assert(text_lt(before[i as int], before[y - 1]));
                lemma_text_lt_order(tag@, before[i as int], before[y - 1]);
            }
        } else if x < i {
            assert(after[x] == before[x] && after[y] == before[y - 1]);
            assert(text_lt(before[x], before[y - 1]));
        } else {
            assert(after[x] == before[x - 1] && after[y] == before[y - 1]);
            assert(text_lt(before[x - 1], before[y - 1]));
        }
    }
    assert forall|t: Seq<char>|
        #![trigger after.contains(t)]
        after.contains(t) <==> (before.contains(t) || t == tag@) by {
        if after.contains(t) {
            let k = choose|k: int| 0 <= k < after.len() && after[k] == t;
            if k < i {
                assert(before[k] == t);
            } else if k > i {
                assert(before[k - 1] == t);
            }
        }
        if before.contains(t) {
            let k = choose|k: int| 0 <= k < before.len() && before[k] == t;
            if k < i {
                assert(after[k] == t);
            } else {
                assert(after[k + 1] == t);
            }
        }
        if t == tag@ {
            assert(after[i as int] == t);
        }
    }
}

/// Puts the tags `item_tags` of an entry into the ascending list `tags`.
fn note_tags(tags: &mut Vec<String>, item_tags: &Vec<Value>)
    requires
        ascending(strings(old(tags)@)),
    ensures
        ascending(strings(final(tags)@)),
        forall|t: Seq<char>|
            #![trigger strings(final(tags)@).contains(t)]
            strings(final(tags)@).contains(t) <==> (strings(old(tags)@).contains(t) || is_tagged(
                items_model(item_tags@),
                t,
            )),
{
    let ghost these = items_model(item_tags@);
    let ghost outer = strings(tags@);
    let mut j: usize = 0;
    assert forall|t: Seq<char>|
        #![trigger strings(tags@).contains(t)]
        strings(tags@).contains(t) <==> (outer.contains(t) || seen_in(these, 0, t)) by {}
    while j < item_tags.len()
        invariant
            j <= item_tags.len(),
            these == items_model(item_tags@),
            ascending(strings(tags@)),
            forall|t: Seq<char>|
                #![trigger strings(tags@).contains(t)]
                strings(tags@).contains(t) <==> (outer.contains(t) || seen_in(these, j as nat, t)),
        decreases item_tags.len() - j,
    {
        let ghost inner = strings(tags@);
        assert(these[j as int] == item_tags@[j as int]@);
        match &item_tags[j] {
            Value::Text(t) => {
                note_tag(tags, t);
            },
            _ => {},
        }
        assert forall|x: Seq<char>|
            #![trigger strings(tags@).contains(x)]
            strings(tags@).contains(x) <==> (outer.contains(x) || seen_in(
                these,
                (j + 1) as nat,
                x,
            )) by {
            lemma_seen_next(these, j as nat, x);
            assert(inner.contains(x) <==> (outer.contains(x) || seen_in(these, j as nat, x)));
        }
        j += 1;
    }
    assert forall|t: Seq<char>|
        #![trigger strings(tags@).contains(t)]
        strings(tags@).contains(t) <==> (outer.contains(t) || is_tagged(these, t)) by {
        lemma_seen_all(these, t);
    }
}

/// The tags that the entries of a plan carry, in the order of strings, each
/// once.
pub fn list_benchmark_file_tags(items: &Vec<Value>) -> (r: Vec<String>)
    ensures
        ascending(strings(r@)),
        forall|t: Seq<char>|
            #![trigger strings(r@).contains(t)]
            strings(r@).contains(t) <==> tag_among(items_model(items@), items@.len(), t),
{
    let ghost model = items_model(items@);
    let mut tags: Vec<String> = Vec::new();
    let mut i: usize = 0;
    assert forall|t: Seq<char>|
        #![trigger strings(tags@).contains(t)]
        strings(tags@).contains(t) <==> tag_among(model, 0, t) by {}
    while i < items.len()
        invariant
            i <= items.len(),
            model == items_model(items@),
            ascending(strings(tags@)),
            forall|t: Seq<char>|
                #![trigger strings(tags@).contains(t)]
                strings(tags@).contains(t) <==> tag_among(model, i as nat, t),
        decreases items.len() - i,
    {
        assert(model[i as int] == items@[i as int]@);
        let ghost outer = strings(tags@);
        match items[i].get_sequence("tags") {
            Some(item_tags) => {
                note_tags(&mut tags, item_tags);
            },
            None => {},
        }
        assert forall|t: Seq<char>|
            #![trigger strings(tags@).contains(t)]
            strings(tags@).contains(t) <==> tag_among(model, (i + 1) as nat, t) by {
            lemma_among_next(model, i as nat, t);
            assert(outer.contains(t) <==> tag_among(model, i as nat, t));
        }
        i += 1;
    }
    tags
}

} // verus!
