//! Why fingerprints can be trusted: the texts that they are taken of differ
//! wherever the profiles differ.
use crate::hash::{sha256, sha256_text};
use crate::json::{escaped, escaped_all, json_bool, json_text};
use crate::profile::{
    ExtensionTimeoutView, NormalizedScannerProfileV1View, NormalizedScannerProfileV2View,
    ParseProfileView,
};
use crate::store::cache::{
    classifier_fingerprint_json, classifier_profile_digest, classifier_profile_domain, member_json,
    members_json, parse_fingerprint_json, parse_json, parse_profile_digest, parse_profile_domain,
    stack_json, texts_json, timeout_json, timeouts_json, RouteStackFingerprintView,
    RouteStackMemberView,
};
use crate::store::request::{
    request_json, scanner_profile_json, BuildContextRequestView, ProfileSectionsView,
};
use crate::text::{
    decimal, is_digit, law_hex_injective, lemma_decimal, lemma_hex_digit_injective,
};
use vstd::prelude::*;
use vstd::utf8::{decode_utf8, encode_utf8, encode_utf8_decode_utf8};

verus! {

// ---------------------------------------------------------------------------
// Taking a text apart from its front
// ---------------------------------------------------------------------------

proof fn lemma_after(front: Seq<char>, left: Seq<char>, right: Seq<char>)
    requires
        front + left == front + right,
    ensures
        left == right,
{
    assert((front + left).len() == front.len() + left.len());
    assert((front + right).len() == front.len() + right.len());
    assert forall|i: int| 0 <= i < left.len() implies left[i] == right[i] by {
        assert((front + left)[front.len() + i] == left[i]);
        assert((front + right)[front.len() + i] == right[i]);
    }
    assert(left =~= right);
}

proof fn lemma_regroup(front: Seq<char>, part: Seq<char>, rest: Seq<char>)
    ensures
        (front + part) + rest == front + (part + rest),
{
    assert((front + part) + rest =~= front + (part + rest));
}

proof fn lemma_escape_first(left: char, x: Seq<char>, right: char, y: Seq<char>)
    requires
        escaped(left) + x == escaped(right) + y,
    ensures
        left == right,
        x == y,
{
    let l = escaped(left) + x;
    let r = escaped(right) + y;
    assert(l[0] == escaped(left)[0] && r[0] == escaped(right)[0]);
    if escaped(left).len() > 1 && escaped(right).len() > 1 {
        assert(l[1] == escaped(left)[1] && r[1] == escaped(right)[1]);
        if escaped(left).len() == 6 && escaped(right).len() == 6 {
            assert(l[4] == escaped(left)[4] && r[4] == escaped(right)[4]);
            assert(l[5] == escaped(left)[5] && r[5] == escaped(right)[5]);
            lemma_hex_digit_injective(left as int / 16, right as int / 16);
            lemma_hex_digit_injective(left as int % 16, right as int % 16);
        }
    }
    assert(left == right);
    lemma_after(escaped(left), x, y);
}

proof fn lemma_escapes_first(left: Seq<char>, x: Seq<char>, right: Seq<char>, y: Seq<char>)
    requires
        escaped_all(left) + (seq!['"'] + x) == escaped_all(right) + (seq!['"'] + y),
    ensures
        left == right,
        x == y,
    decreases left.len(),
{
    let l = escaped_all(left) + (seq!['"'] + x);
    let r = escaped_all(right) + (seq!['"'] + y);
    if left.len() == 0 || right.len() == 0 {
        if left.len() > 0 {
            assert(l[0] == escaped(left[0])[0]);
            assert(r[0] == '"');
        }
        if right.len() > 0 {
            assert(r[0] == escaped(right[0])[0]);
            assert(l[0] == '"');
        }
        assert(left =~= right);
        assert(l =~= seq!['"'] + x);
        assert(r =~= seq!['"'] + y);
        lemma_after(seq!['"'], x, y);
    } else {
        let l_rest = escaped_all(left.skip(1)) + (seq!['"'] + x);
        let r_rest = escaped_all(right.skip(1)) + (seq!['"'] + y);
        lemma_regroup(escaped(left[0]), escaped_all(left.skip(1)), seq!['"'] + x);
        lemma_regroup(escaped(right[0]), escaped_all(right.skip(1)), seq!['"'] + y);
        lemma_escape_first(left[0], l_rest, right[0], r_rest);
        lemma_escapes_first(left.skip(1), x, right.skip(1), y);
        assert(left =~= seq![left[0]] + left.skip(1));
        assert(right =~= seq![right[0]] + right.skip(1));
    }
}

/// A JSON string shows where it ends: whatever follows, two texts whose JSON
/// strings begin the same document are the same text.
pub proof fn law_json_strings_end_themselves(
    left: Seq<char>,
    x: Seq<char>,
    right: Seq<char>,
    y: Seq<char>,
)
    requires
        json_text(left) + x == json_text(right) + y,
    ensures
        left == right,
        x == y,
{
    let quote = seq!['"'];
    lemma_regroup(quote + escaped_all(left), quote, x);
    lemma_regroup(quote + escaped_all(right), quote, y);
    lemma_regroup(quote, escaped_all(left), quote + x);
    lemma_regroup(quote, escaped_all(right), quote + y);
    lemma_after(
        quote,
        escaped_all(left) + (quote + x),
        escaped_all(right) + (quote + y),
    );
    lemma_escapes_first(left, x, right, y);
}

/// What follows does not go on with a digit.
spec fn no_digit_first(rest: Seq<char>) -> bool {
    rest.len() > 0 && !is_digit(rest[0])
}

proof fn lemma_number_first(left: nat, x: Seq<char>, right: nat, y: Seq<char>)
    requires
        decimal(left) + x == decimal(right) + y,
        no_digit_first(x),
        no_digit_first(y),
    ensures
        left == right,
        x == y,
{
    lemma_decimal(left);
    lemma_decimal(right);
    let l = decimal(left);
    let r = decimal(right);
    if l.len() < r.len() {
        assert((l + x)[l.len() as int] == x[0]);
        assert((r + y)[l.len() as int] == r[l.len() as int]);
    } else if r.len() < l.len() {
        assert((r + y)[r.len() as int] == y[0]);
        assert((l + x)[r.len() as int] == l[r.len() as int]);
    }
    assert(l.len() == r.len());
    assert forall|i: int| 0 <= i < l.len() implies l[i] == r[i] by {
        assert((l + x)[i] == l[i]);
        assert((r + y)[i] == r[i]);
    }
    assert(l =~= r);
    lemma_after(l, x, y);
}

proof fn lemma_bool_first(left: bool, x: Seq<char>, right: bool, y: Seq<char>)
    requires
        json_bool(left) + x == json_bool(right) + y,
    ensures
        left == right,
        x == y,
{
    reveal_strlit("true");
    reveal_strlit("false");
    assert((json_bool(left) + x)[0] == json_bool(left)[0]);
    assert((json_bool(right) + y)[0] == json_bool(right)[0]);
    lemma_after(json_bool(left), x, y);
}

// ---------------------------------------------------------------------------
// Lists
// ---------------------------------------------------------------------------

/// What a list of a fingerprint holds.
pub enum ListedView {
    Text(Seq<char>),
    Member(RouteStackMemberView),
    Timeout(ExtensionTimeoutView),
}

spec fn listed_json(item: ListedView) -> Seq<char> {
    match item {
        ListedView::Text(text) => json_text(text),
        ListedView::Member(member) => member_json(member),
        ListedView::Timeout(entry) => timeout_json(entry),
    }
}

spec fn same_kind(left: ListedView, right: ListedView) -> bool {
    match left {
        ListedView::Text(_) => right is Text,
        ListedView::Member(_) => right is Member,
        ListedView::Timeout(_) => right is Timeout,
    }
}

/// What follows goes on with the next item or ends the list.
spec fn item_ends(rest: Seq<char>) -> bool {
    rest.len() > 0 && (rest[0] == ',' || rest[0] == ']' || rest[0] == '}')
}

/// What follows ends the list.
spec fn list_ends(rest: Seq<char>) -> bool {
    rest.len() > 0 && (rest[0] == ']' || rest[0] == '}')
}

proof fn lemma_member_parts(member: RouteStackMemberView, rest: Seq<char>)
    ensures
        member_json(member) + rest == "{\"component\":"@ + (json_text(member.component) + (
        ",\"contract\":"@ + (json_text(member.contract) + (",\"build\":"@ + (json_text(member.build)
            + ("}"@ + rest)))))),
{
    let a = "{\"component\":"@;
    let b = a + json_text(member.component);
    let c = b + ",\"contract\":"@;
    let d = c + json_text(member.contract);
    let e = d + ",\"build\":"@;
    let f = e + json_text(member.build);
    let t6 = "}"@ + rest;
    let t5 = json_text(member.build) + t6;
    let t4 = ",\"build\":"@ + t5;
    let t3 = json_text(member.contract) + t4;
    let t2 = ",\"contract\":"@ + t3;
    lemma_regroup(f, "}"@, rest);
    lemma_regroup(e, json_text(member.build), t6);
    lemma_regroup(d, ",\"build\":"@, t5);
    lemma_regroup(c, json_text(member.contract), t4);
    lemma_regroup(b, ",\"contract\":"@, t3);
    lemma_regroup(a, json_text(member.component), t2);
}

proof fn lemma_member_first(
    left: RouteStackMemberView,
    x: Seq<char>,
    right: RouteStackMemberView,
    y: Seq<char>,
)
    requires
        member_json(left) + x == member_json(right) + y,
    ensures
        left == right,
        x == y,
{
    lemma_member_parts(left, x);
    lemma_member_parts(right, y);
    let l6 = "}"@ + x;
    let l5 = json_text(left.build) + l6;
    let l4 = ",\"build\":"@ + l5;
    let l3 = json_text(left.contract) + l4;
    let l2 = ",\"contract\":"@ + l3;
    let l1 = json_text(left.component) + l2;
    let r6 = "}"@ + y;
    let r5 = json_text(right.build) + r6;
    let r4 = ",\"build\":"@ + r5;
    let r3 = json_text(right.contract) + r4;
    let r2 = ",\"contract\":"@ + r3;
    let r1 = json_text(right.component) + r2;
    lemma_after("{\"component\":"@, l1, r1);
    law_json_strings_end_themselves(left.component, l2, right.component, r2);
    lemma_after(",\"contract\":"@, l3, r3);
    law_json_strings_end_themselves(left.contract, l4, right.contract, r4);
    lemma_after(",\"build\":"@, l5, r5);
    law_json_strings_end_themselves(left.build, l6, right.build, r6);
    lemma_after("}"@, x, y);
    assert(left =~= right);
}

proof fn lemma_timeout_first(
    left: ExtensionTimeoutView,
    x: Seq<char>,
    right: ExtensionTimeoutView,
    y: Seq<char>,
)
    requires
        timeout_json(left) + x == timeout_json(right) + y,
        no_digit_first(x),
        no_digit_first(y),
    ensures
        left == right,
        x == y,
{
    let l2 = decimal(left.timeout_ms as nat) + x;
    let r2 = decimal(right.timeout_ms as nat) + y;
    lemma_regroup(json_text(left.extension) + ":"@, decimal(left.timeout_ms as nat), x);
    lemma_regroup(json_text(right.extension) + ":"@, decimal(right.timeout_ms as nat), y);
    lemma_regroup(json_text(left.extension), ":"@, l2);
    lemma_regroup(json_text(right.extension), ":"@, r2);
    law_json_strings_end_themselves(left.extension, ":"@ + l2, right.extension, ":"@ + r2);
    lemma_after(":"@, l2, r2);
    lemma_number_first(left.timeout_ms as nat, x, right.timeout_ms as nat, y);
    assert(left =~= right);
}

proof fn lemma_listed_first(left: ListedView, x: Seq<char>, right: ListedView, y: Seq<char>)
    requires
        listed_json(left) + x == listed_json(right) + y,
        same_kind(left, right),
        item_ends(x),
        item_ends(y),
    ensures
        left == right,
        x == y,
{
    match left {
        ListedView::Text(text) => {
            law_json_strings_end_themselves(text, x, right->Text_0, y);
        },
        ListedView::Member(member) => {
            lemma_member_first(member, x, right->Member_0, y);
        },
        ListedView::Timeout(entry) => {
            lemma_timeout_first(entry, x, right->Timeout_0, y);
        },
    }
}

proof fn lemma_listed_start(item: ListedView)
    ensures
        listed_json(item).len() > 0,
        listed_json(item)[0] == '"' || listed_json(item)[0] == '{',
{
    reveal_strlit("{\"component\":");
    match item {
        ListedView::Text(text) => {},
        ListedView::Member(member) => {
            lemma_member_parts(member, Seq::empty());
            assert(member_json(member) + Seq::<char>::empty() =~= member_json(member));
        },
        ListedView::Timeout(entry) => {
            assert(timeout_json(entry)[0] == json_text(entry.extension)[0]);
        },
    }
}

/// The first `count` items, separated by commas.
spec fn list_json(items: Seq<ListedView>, count: nat) -> Seq<char>
    decreases count,
{
    if count == 0 {
        Seq::empty()
    } else if count == 1 {
        listed_json(items[0])
    } else {
        list_json(items, (count - 1) as nat) + ","@ + listed_json(items[count - 1])
    }
}

/// The items from `from` on, each after a comma.
spec fn tail_json(items: Seq<ListedView>, from: nat) -> Seq<char>
    decreases items.len() - from,
{
    if from >= items.len() {
        Seq::empty()
    } else {
        ","@ + (listed_json(items[from as int]) + tail_json(items, from + 1))
    }
}

proof fn lemma_list_splits(items: Seq<ListedView>, count: nat)
    requires
        1 <= count <= items.len(),
    ensures
        list_json(items, items.len()) == list_json(items, count) + tail_json(items, count),
    decreases items.len() - count,
{
    if count == items.len() {
        assert(list_json(items, count) + Seq::<char>::empty() =~= list_json(items, count));
    } else {
        lemma_list_splits(items, count + 1);
        let item = listed_json(items[count as int]);
        let rest = tail_json(items, count + 1);
        lemma_regroup(list_json(items, count) + ","@, item, rest);
        lemma_regroup(list_json(items, count), ","@, item + rest);
    }
}

proof fn lemma_tails_agree(
    left: Seq<ListedView>,
    x: Seq<char>,
    right: Seq<ListedView>,
    y: Seq<char>,
    from: nat,
)
    requires
        tail_json(left, from) + x == tail_json(right, from) + y,
        list_ends(x),
        list_ends(y),
        from <= left.len(),
        from <= right.len(),
        forall|i: int, j: int|
            0 <= i < left.len() && 0 <= j < right.len() ==> same_kind(
                #[trigger] left[i],
                #[trigger] right[j],
            ),
    ensures
        left.len() == right.len(),
        forall|i: int| from <= i < left.len() ==> left[i] == right[i],
        x == y,
    decreases left.len() - from,
{
    reveal_strlit(",");
    if from < left.len() && from < right.len() {
        let l_item = listed_json(left[from as int]);
        let r_item = listed_json(right[from as int]);
        let l_rest = tail_json(left, from + 1) + x;
        let r_rest = tail_json(right, from + 1) + y;
        lemma_regroup(","@, l_item + tail_json(left, from + 1), x);
        lemma_regroup(","@, r_item + tail_json(right, from + 1), y);
        lemma_regroup(l_item, tail_json(left, from + 1), x);
        lemma_regroup(r_item, tail_json(right, from + 1), y);
        lemma_after(","@, l_item + l_rest, r_item + r_rest);
        assert(item_ends(l_rest)) by {
            if from + 1 < left.len() {
                assert(l_rest[0] == ","@[0]);
            } else {
                assert(l_rest =~= x);
            }
        }
        assert(item_ends(r_rest)) by {
            if from + 1 < right.len() {
                assert(r_rest[0] == ","@[0]);
            } else {
                assert(r_rest =~= y);
            }
        }
        lemma_listed_first(left[from as int], l_rest, right[from as int], r_rest);
        lemma_tails_agree(left, x, right, y, from + 1);
    } else {
        if from < left.len() {
            assert((tail_json(left, from) + x)[0] == ',');
            assert((tail_json(right, from) + y)[0] == y[0]);
        }
        if from < right.len() {
            assert((tail_json(right, from) + y)[0] == ',');
            assert((tail_json(left, from) + x)[0] == x[0]);
        }
        assert(Seq::<char>::empty() + x =~= x);
        assert(Seq::<char>::empty() + y =~= y);
    }
}

proof fn lemma_lists_agree(
    left: Seq<ListedView>,
    x: Seq<char>,
    right: Seq<ListedView>,
    y: Seq<char>,
)
    requires
        list_json(left, left.len()) + x == list_json(right, right.len()) + y,
        list_ends(x),
        list_ends(y),
        forall|i: int, j: int|
            0 <= i < left.len() && 0 <= j < right.len() ==> same_kind(
                #[trigger] left[i],
                #[trigger] right[j],
            ),
    ensures
        left == right,
        x == y,
{
    reveal_strlit(",");
    if left.len() > 0 {
        lemma_list_splits(left, 1);
        lemma_regroup(listed_json(left[0]), tail_json(left, 1), x);
        lemma_listed_start(left[0]);
    }
    if right.len() > 0 {
        lemma_list_splits(right, 1);
        lemma_regroup(listed_json(right[0]), tail_json(right, 1), y);
        lemma_listed_start(right[0]);
    }
    let l = list_json(left, left.len()) + x;
    let r = list_json(right, right.len()) + y;
    if left.len() > 0 && right.len() > 0 {
        let l_rest = tail_json(left, 1) + x;
        let r_rest = tail_json(right, 1) + y;
        assert(item_ends(l_rest)) by {
            if 1 < left.len() {
                assert(l_rest[0] == ","@[0]);
            } else {
                assert(l_rest =~= x);
            }
        }
        assert(item_ends(r_rest)) by {
            if 1 < right.len() {
                assert(r_rest[0] == ","@[0]);
            } else {
                assert(r_rest =~= y);
            }
        }
        lemma_listed_first(left[0], l_rest, right[0], r_rest);
        lemma_tails_agree(left, x, right, y, 1);
    } else {
        if left.len() > 0 {
            assert(l[0] == listed_json(left[0])[0]);
            assert(r[0] == y[0]);
        }
        if right.len() > 0 {
            assert(r[0] == listed_json(right[0])[0]);
            assert(l[0] == x[0]);
        }
        assert(Seq::<char>::empty() + x =~= x);
        assert(Seq::<char>::empty() + y =~= y);
    }
    assert(left =~= right);
}

spec fn listed_texts(texts: Seq<Seq<char>>) -> Seq<ListedView> {
    Seq::new(texts.len(), |i: int| ListedView::Text(texts[i]))
}

spec fn listed_members(members: Seq<RouteStackMemberView>) -> Seq<ListedView> {
    Seq::new(members.len(), |i: int| ListedView::Member(members[i]))
}

spec fn listed_timeouts(entries: Seq<ExtensionTimeoutView>) -> Seq<ListedView> {
    Seq::new(entries.len(), |i: int| ListedView::Timeout(entries[i]))
}

proof fn lemma_texts_listed(texts: Seq<Seq<char>>, count: nat)
    requires
        count <= texts.len(),
    ensures
        texts_json(texts, count) == list_json(listed_texts(texts), count),
    decreases count,
{
    if count > 1 {
        lemma_texts_listed(texts, (count - 1) as nat);
    }
}

proof fn lemma_members_listed(members: Seq<RouteStackMemberView>, count: nat)
    requires
        count <= members.len(),
    ensures
        members_json(members, count) == list_json(listed_members(members), count),
    decreases count,
{
    if count > 1 {
        lemma_members_listed(members, (count - 1) as nat);
    }
}

proof fn lemma_timeouts_listed(entries: Seq<ExtensionTimeoutView>, count: nat)
    requires
        count <= entries.len(),
    ensures
        timeouts_json(entries, count) == list_json(listed_timeouts(entries), count),
    decreases count,
{
    if count > 1 {
        lemma_timeouts_listed(entries, (count - 1) as nat);
    }
}

proof fn lemma_texts_first(
    left: Seq<Seq<char>>,
    x: Seq<char>,
    right: Seq<Seq<char>>,
    y: Seq<char>,
)
    requires
        texts_json(left, left.len()) + x == texts_json(right, right.len()) + y,
        list_ends(x),
        list_ends(y),
    ensures
        left == right,
        x == y,
{
    lemma_texts_listed(left, left.len());
    lemma_texts_listed(right, right.len());
    let l = listed_texts(left);
    let r = listed_texts(right);
    lemma_lists_agree(l, x, r, y);
    assert forall|i: int| 0 <= i < left.len() implies left[i] == right[i] by {
        assert(l[i] == r[i]);
    }
    assert(l.len() == r.len());
    assert(left =~= right);
}

proof fn lemma_members_first(
    left: Seq<RouteStackMemberView>,
    x: Seq<char>,
    right: Seq<RouteStackMemberView>,
    y: Seq<char>,
)
    requires
        members_json(left, left.len()) + x == members_json(right, right.len()) + y,
        list_ends(x),
        list_ends(y),
    ensures
        left == right,
        x == y,
{
    lemma_members_listed(left, left.len());
    lemma_members_listed(right, right.len());
    let l = listed_members(left);
    let r = listed_members(right);
    lemma_lists_agree(l, x, r, y);
    assert forall|i: int| 0 <= i < left.len() implies left[i] == right[i] by {
        assert(l[i] == r[i]);
    }
    assert(l.len() == r.len());
    assert(left =~= right);
}

proof fn lemma_timeouts_first(
    left: Seq<ExtensionTimeoutView>,
    x: Seq<char>,
    right: Seq<ExtensionTimeoutView>,
    y: Seq<char>,
)
    requires
        timeouts_json(left, left.len()) + x == timeouts_json(right, right.len()) + y,
        list_ends(x),
        list_ends(y),
    ensures
        left == right,
        x == y,
{
    lemma_timeouts_listed(left, left.len());
    lemma_timeouts_listed(right, right.len());
    let l = listed_timeouts(left);
    let r = listed_timeouts(right);
    lemma_lists_agree(l, x, r, y);
    assert forall|i: int| 0 <= i < left.len() implies left[i] == right[i] by {
        assert(l[i] == r[i]);
    }
    assert(l.len() == r.len());
    assert(left =~= right);
}

// ---------------------------------------------------------------------------
// Whole documents
// ---------------------------------------------------------------------------

proof fn lemma_stack_parts(stack: RouteStackFingerprintView, rest: Seq<char>)
    ensures
        stack_json(stack) + rest ==
            "{\"route\":"@ + (json_text(stack.route) + (",\"members\":["@ + (
            members_json(stack.members, stack.members.len()) + ("]}"@ + rest)))),
{
    let f1 = "{\"route\":"@ + json_text(stack.route);
    let f2 = f1 + ",\"members\":["@;
    let f3 = f2 + members_json(stack.members, stack.members.len());
    lemma_regroup(f3, "]}"@, rest);
    let t4 = "]}"@ + rest;
    lemma_regroup(f2, members_json(stack.members, stack.members.len()), t4);
    let t3 = members_json(stack.members, stack.members.len()) + t4;
    lemma_regroup(f1, ",\"members\":["@, t3);
    let t2 = ",\"members\":["@ + t3;
    lemma_regroup("{\"route\":"@, json_text(stack.route), t2);
}

proof fn lemma_stack_first(
    left: RouteStackFingerprintView,
    x: Seq<char>,
    right: RouteStackFingerprintView,
    y: Seq<char>,
)
    requires
        stack_json(left) + x == stack_json(right) + y,
    ensures
        left == right,
        x == y,
{
    reveal_strlit("]}");
    lemma_stack_parts(left, x);
    lemma_stack_parts(right, y);
    let l4 = "]}"@ + x;
    let l3 = members_json(left.members, left.members.len()) + l4;
    let l2 = ",\"members\":["@ + l3;
    let l1 = json_text(left.route) + l2;
    let r4 = "]}"@ + y;
    let r3 = members_json(right.members, right.members.len()) + r4;
    let r2 = ",\"members\":["@ + r3;
    let r1 = json_text(right.route) + r2;
    lemma_after("{\"route\":"@, l1, r1);
    law_json_strings_end_themselves(left.route, l2, right.route, r2);
    lemma_after(",\"members\":["@, l3, r3);
    lemma_members_first(left.members, l4, right.members, r4);
    lemma_after("]}"@, x, y);
    assert(left =~= right);
}

proof fn lemma_parse_parts(parse: ParseProfileView, rest: Seq<char>)
    ensures
        parse_json(parse) + rest ==
            "{\"text\":{\"max_chars\":"@ + (decimal(parse.text.max_chars as nat) + (
            "},\"pdf\":{\"max_pages\":"@ + (decimal(parse.pdf.max_pages as nat) + (
            "},\"office\":{\"primary_backend\":"@ + (json_text(parse.office.primary_backend) + (
            ",\"fallback_after_timeout\":"@ + (json_bool(parse.office.fallback_after_timeout) + (
            ",\"fallback_order\":["@ + (
            texts_json(parse.office.fallback_order, parse.office.fallback_order.len()) + (
            "]}}"@ + rest)))))))))),
{
    let f1 = "{\"text\":{\"max_chars\":"@ + decimal(parse.text.max_chars as nat);
    let f2 = f1 + "},\"pdf\":{\"max_pages\":"@;
    let f3 = f2 + decimal(parse.pdf.max_pages as nat);
    let f4 = f3 + "},\"office\":{\"primary_backend\":"@;
    let f5 = f4 + json_text(parse.office.primary_backend);
    let f6 = f5 + ",\"fallback_after_timeout\":"@;
    let f7 = f6 + json_bool(parse.office.fallback_after_timeout);
    let f8 = f7 + ",\"fallback_order\":["@;
    let f9 = f8 + texts_json(parse.office.fallback_order, parse.office.fallback_order.len());
    lemma_regroup(f9, "]}}"@, rest);
    let t10 = "]}}"@ + rest;
    lemma_regroup(
        f8,
        texts_json(parse.office.fallback_order, parse.office.fallback_order.len()),
        t10,
    );
    let t9 = texts_json(parse.office.fallback_order, parse.office.fallback_order.len()) + t10;
    lemma_regroup(f7, ",\"fallback_order\":["@, t9);
    let t8 = ",\"fallback_order\":["@ + t9;
    lemma_regroup(f6, json_bool(parse.office.fallback_after_timeout), t8);
    let t7 = json_bool(parse.office.fallback_after_timeout) + t8;
    lemma_regroup(f5, ",\"fallback_after_timeout\":"@, t7);
    let t6 = ",\"fallback_after_timeout\":"@ + t7;
    lemma_regroup(f4, json_text(parse.office.primary_backend), t6);
    let t5 = json_text(parse.office.primary_backend) + t6;
    lemma_regroup(f3, "},\"office\":{\"primary_backend\":"@, t5);
    let t4 = "},\"office\":{\"primary_backend\":"@ + t5;
    lemma_regroup(f2, decimal(parse.pdf.max_pages as nat), t4);
    let t3 = decimal(parse.pdf.max_pages as nat) + t4;
    lemma_regroup(f1, "},\"pdf\":{\"max_pages\":"@, t3);
    let t2 = "},\"pdf\":{\"max_pages\":"@ + t3;
    lemma_regroup("{\"text\":{\"max_chars\":"@, decimal(parse.text.max_chars as nat), t2);
}

proof fn lemma_parse_first(
    left: ParseProfileView,
    x: Seq<char>,
    right: ParseProfileView,
    y: Seq<char>,
)
    requires
        parse_json(left) + x == parse_json(right) + y,
    ensures
        left == right,
        x == y,
{
    reveal_strlit("},\"pdf\":{\"max_pages\":");
    reveal_strlit("},\"office\":{\"primary_backend\":");
    reveal_strlit("]}}");
    lemma_parse_parts(left, x);
    lemma_parse_parts(right, y);
    let l10 = "]}}"@ + x;
    let l9 = texts_json(left.office.fallback_order, left.office.fallback_order.len()) + l10;
    let l8 = ",\"fallback_order\":["@ + l9;
    let l7 = json_bool(left.office.fallback_after_timeout) + l8;
    let l6 = ",\"fallback_after_timeout\":"@ + l7;
    let l5 = json_text(left.office.primary_backend) + l6;
    let l4 = "},\"office\":{\"primary_backend\":"@ + l5;
    let l3 = decimal(left.pdf.max_pages as nat) + l4;
    let l2 = "},\"pdf\":{\"max_pages\":"@ + l3;
    let l1 = decimal(left.text.max_chars as nat) + l2;
    let r10 = "]}}"@ + y;
    let r9 = texts_json(right.office.fallback_order, right.office.fallback_order.len()) + r10;
    let r8 = ",\"fallback_order\":["@ + r9;
    let r7 = json_bool(right.office.fallback_after_timeout) + r8;
    let r6 = ",\"fallback_after_timeout\":"@ + r7;
    let r5 = json_text(right.office.primary_backend) + r6;
    let r4 = "},\"office\":{\"primary_backend\":"@ + r5;
    let r3 = decimal(right.pdf.max_pages as nat) + r4;
    let r2 = "},\"pdf\":{\"max_pages\":"@ + r3;
    let r1 = decimal(right.text.max_chars as nat) + r2;
    lemma_after("{\"text\":{\"max_chars\":"@, l1, r1);
    lemma_number_first(left.text.max_chars as nat, l2, right.text.max_chars as nat, r2);
    lemma_after("},\"pdf\":{\"max_pages\":"@, l3, r3);
    lemma_number_first(left.pdf.max_pages as nat, l4, right.pdf.max_pages as nat, r4);
    lemma_after("},\"office\":{\"primary_backend\":"@, l5, r5);
    law_json_strings_end_themselves(
        left.office.primary_backend,
        l6,
        right.office.primary_backend,
        r6,
    );
    lemma_after(",\"fallback_after_timeout\":"@, l7, r7);
    lemma_bool_first(
        left.office.fallback_after_timeout,
        l8,
        right.office.fallback_after_timeout,
        r8,
    );
    lemma_after(",\"fallback_order\":["@, l9, r9);
    lemma_texts_first(left.office.fallback_order, l10, right.office.fallback_order, r10);
    lemma_after("]}}"@, x, y);
    assert(left.office =~= right.office);
    assert(left =~= right);
}

proof fn lemma_fingerprint_parts(
    stack: RouteStackFingerprintView,
    profile: NormalizedScannerProfileV1View,
    rest: Seq<char>,
)
    ensures
        parse_fingerprint_json(stack, profile) + rest ==
            "{\"protocol_version\":1,\"route_stack\":"@ + (stack_json(stack) + (
            ",\"parser_profile_version\":"@ + (json_text(profile.parser_profile_version) + (
            ",\"max_file_size_bytes\":"@ + (
            decimal(profile.execution.max_file_size_bytes as nat) + (
            ",\"default_timeout_ms\":"@ + (decimal(profile.execution.file_timeout_ms as nat) + (
            ",\"timeout_by_extension_ms\":{"@ + (
            timeouts_json(
                profile.execution.file_timeout_by_extension_ms,
                profile.execution.file_timeout_by_extension_ms.len(),
            ) + (
            "},\"parse\":"@ + (parse_json(profile.parse) + ("}"@ + rest)))))))))))),
{
    let f1 = "{\"protocol_version\":1,\"route_stack\":"@ + stack_json(stack);
    let f2 = f1 + ",\"parser_profile_version\":"@;
    let f3 = f2 + json_text(profile.parser_profile_version);
    let f4 = f3 + ",\"max_file_size_bytes\":"@;
    let f5 = f4 + decimal(profile.execution.max_file_size_bytes as nat);
    let f6 = f5 + ",\"default_timeout_ms\":"@;
    let f7 = f6 + decimal(profile.execution.file_timeout_ms as nat);
    let f8 = f7 + ",\"timeout_by_extension_ms\":{"@;
    let f9 = f8 + timeouts_json(
        profile.execution.file_timeout_by_extension_ms,
        profile.execution.file_timeout_by_extension_ms.len(),
    );
    let f10 = f9 + "},\"parse\":"@;
    let f11 = f10 + parse_json(profile.parse);
    lemma_regroup(f11, "}"@, rest);
    let t12 = "}"@ + rest;
    lemma_regroup(f10, parse_json(profile.parse), t12);
    let t11 = parse_json(profile.parse) + t12;
    lemma_regroup(f9, "},\"parse\":"@, t11);
    let t10 = "},\"parse\":"@ + t11;
    lemma_regroup(
        f8,
        timeouts_json(
            profile.execution.file_timeout_by_extension_ms,
            profile.execution.file_timeout_by_extension_ms.len(),
        ),
        t10,
    );
    let t9 = timeouts_json(
        profile.execution.file_timeout_by_extension_ms,
        profile.execution.file_timeout_by_extension_ms.len(),
    ) + t10;
    lemma_regroup(f7, ",\"timeout_by_extension_ms\":{"@, t9);
    let t8 = ",\"timeout_by_extension_ms\":{"@ + t9;
    lemma_regroup(f6, decimal(profile.execution.file_timeout_ms as nat), t8);
    let t7 = decimal(profile.execution.file_timeout_ms as nat) + t8;
    lemma_regroup(f5, ",\"default_timeout_ms\":"@, t7);
    let t6 = ",\"default_timeout_ms\":"@ + t7;
    lemma_regroup(f4, decimal(profile.execution.max_file_size_bytes as nat), t6);
    let t5 = decimal(profile.execution.max_file_size_bytes as nat) + t6;
    lemma_regroup(f3, ",\"max_file_size_bytes\":"@, t5);
    let t4 = ",\"max_file_size_bytes\":"@ + t5;
    lemma_regroup(f2, json_text(profile.parser_profile_version), t4);
    let t3 = json_text(profile.parser_profile_version) + t4;
    lemma_regroup(f1, ",\"parser_profile_version\":"@, t3);
    let t2 = ",\"parser_profile_version\":"@ + t3;
    lemma_regroup("{\"protocol_version\":1,\"route_stack\":"@, stack_json(stack), t2);
}

proof fn lemma_fingerprint_first(
    left_stack: RouteStackFingerprintView,
    left: NormalizedScannerProfileV1View,
    x: Seq<char>,
    right_stack: RouteStackFingerprintView,
    right: NormalizedScannerProfileV1View,
    y: Seq<char>,
)
    requires
        parse_fingerprint_json(left_stack, left) + x
            == parse_fingerprint_json(right_stack, right) + y,
    ensures
        left_stack == right_stack,
        left.parser_profile_version == right.parser_profile_version,
        left.execution.max_file_size_bytes == right.execution.max_file_size_bytes,
        left.execution.file_timeout_ms == right.execution.file_timeout_ms,
        left.execution.file_timeout_by_extension_ms
            == right.execution.file_timeout_by_extension_ms,
        left.parse == right.parse,
{
    reveal_strlit(",\"default_timeout_ms\":");
    reveal_strlit(",\"timeout_by_extension_ms\":{");
    reveal_strlit("},\"parse\":");
    lemma_fingerprint_parts(left_stack, left, x);
    lemma_fingerprint_parts(right_stack, right, y);
    let l12 = "}"@ + x;
    let l11 = parse_json(left.parse) + l12;
    let l10 = "},\"parse\":"@ + l11;
    let l9 = timeouts_json(
        left.execution.file_timeout_by_extension_ms,
        left.execution.file_timeout_by_extension_ms.len(),
    ) + l10;
    let l8 = ",\"timeout_by_extension_ms\":{"@ + l9;
    let l7 = decimal(left.execution.file_timeout_ms as nat) + l8;
    let l6 = ",\"default_timeout_ms\":"@ + l7;
    let l5 = decimal(left.execution.max_file_size_bytes as nat) + l6;
    let l4 = ",\"max_file_size_bytes\":"@ + l5;
    let l3 = json_text(left.parser_profile_version) + l4;
    let l2 = ",\"parser_profile_version\":"@ + l3;
    let l1 = stack_json(left_stack) + l2;
    let r12 = "}"@ + y;
    let r11 = parse_json(right.parse) + r12;
    let r10 = "},\"parse\":"@ + r11;
    let r9 = timeouts_json(
        right.execution.file_timeout_by_extension_ms,
        right.execution.file_timeout_by_extension_ms.len(),
    ) + r10;
    let r8 = ",\"timeout_by_extension_ms\":{"@ + r9;
    let r7 = decimal(right.execution.file_timeout_ms as nat) + r8;
    let r6 = ",\"default_timeout_ms\":"@ + r7;
    let r5 = decimal(right.execution.max_file_size_bytes as nat) + r6;
    let r4 = ",\"max_file_size_bytes\":"@ + r5;
    let r3 = json_text(right.parser_profile_version) + r4;
    let r2 = ",\"parser_profile_version\":"@ + r3;
    let r1 = stack_json(right_stack) + r2;
    lemma_after("{\"protocol_version\":1,\"route_stack\":"@, l1, r1);
    lemma_stack_first(left_stack, l2, right_stack, r2);
    lemma_after(",\"parser_profile_version\":"@, l3, r3);
    law_json_strings_end_themselves(
        left.parser_profile_version,
        l4,
        right.parser_profile_version,
        r4,
    );
    lemma_after(",\"max_file_size_bytes\":"@, l5, r5);
    lemma_number_first(
        left.execution.max_file_size_bytes as nat,
        l6,
        right.execution.max_file_size_bytes as nat,
        r6,
    );
    lemma_after(",\"default_timeout_ms\":"@, l7, r7);
    lemma_number_first(
        left.execution.file_timeout_ms as nat,
        l8,
        right.execution.file_timeout_ms as nat,
        r8,
    );
    lemma_after(",\"timeout_by_extension_ms\":{"@, l9, r9);
    lemma_timeouts_first(
        left.execution.file_timeout_by_extension_ms,
        l10,
        right.execution.file_timeout_by_extension_ms,
        r10,
    );
    lemma_after("},\"parse\":"@, l11, r11);
    lemma_parse_first(left.parse, l12, right.parse, r12);
    lemma_after("}"@, x, y);
}

proof fn lemma_classifier_parts(profile: NormalizedScannerProfileV2View, rest: Seq<char>)
    ensures
        classifier_fingerprint_json(profile) + rest ==
            "{\"policy_version\":"@ + (json_text(profile.classifier_policy_version) + (
            ",\"pdf_max_pages\":"@ + (decimal(profile.parse.pdf.max_pages as nat) + (
            ",\"pdf_classification_timeout_ms\":"@ + (
            decimal(profile.pdf_classification_timeout_ms as nat) + ("}"@ + rest)))))),
{
    let f1 = "{\"policy_version\":"@ + json_text(profile.classifier_policy_version);
    let f2 = f1 + ",\"pdf_max_pages\":"@;
    let f3 = f2 + decimal(profile.parse.pdf.max_pages as nat);
    let f4 = f3 + ",\"pdf_classification_timeout_ms\":"@;
    let f5 = f4 + decimal(profile.pdf_classification_timeout_ms as nat);
    lemma_regroup(f5, "}"@, rest);
    let t6 = "}"@ + rest;
    lemma_regroup(f4, decimal(profile.pdf_classification_timeout_ms as nat), t6);
    let t5 = decimal(profile.pdf_classification_timeout_ms as nat) + t6;
    lemma_regroup(f3, ",\"pdf_classification_timeout_ms\":"@, t5);
    let t4 = ",\"pdf_classification_timeout_ms\":"@ + t5;
    lemma_regroup(f2, decimal(profile.parse.pdf.max_pages as nat), t4);
    let t3 = decimal(profile.parse.pdf.max_pages as nat) + t4;
    lemma_regroup(f1, ",\"pdf_max_pages\":"@, t3);
    let t2 = ",\"pdf_max_pages\":"@ + t3;
    lemma_regroup("{\"policy_version\":"@, json_text(profile.classifier_policy_version), t2);
}

proof fn lemma_classifier_first(
    left: NormalizedScannerProfileV2View,
    x: Seq<char>,
    right: NormalizedScannerProfileV2View,
    y: Seq<char>,
)
    requires
        classifier_fingerprint_json(left) + x == classifier_fingerprint_json(right) + y,
    ensures
        left.classifier_policy_version == right.classifier_policy_version,
        left.parse.pdf.max_pages == right.parse.pdf.max_pages,
        left.pdf_classification_timeout_ms == right.pdf_classification_timeout_ms,
{
    reveal_strlit(",\"pdf_classification_timeout_ms\":");
    reveal_strlit("}");
    lemma_classifier_parts(left, x);
    lemma_classifier_parts(right, y);
    let l6 = "}"@ + x;
    let l5 = decimal(left.pdf_classification_timeout_ms as nat) + l6;
    let l4 = ",\"pdf_classification_timeout_ms\":"@ + l5;
    let l3 = decimal(left.parse.pdf.max_pages as nat) + l4;
    let l2 = ",\"pdf_max_pages\":"@ + l3;
    let l1 = json_text(left.classifier_policy_version) + l2;
    let r6 = "}"@ + y;
    let r5 = decimal(right.pdf_classification_timeout_ms as nat) + r6;
    let r4 = ",\"pdf_classification_timeout_ms\":"@ + r5;
    let r3 = decimal(right.parse.pdf.max_pages as nat) + r4;
    let r2 = ",\"pdf_max_pages\":"@ + r3;
    let r1 = json_text(right.classifier_policy_version) + r2;
    lemma_after("{\"policy_version\":"@, l1, r1);
    law_json_strings_end_themselves(
        left.classifier_policy_version,
        l2,
        right.classifier_policy_version,
        r2,
    );
    lemma_after(",\"pdf_max_pages\":"@, l3, r3);
    lemma_number_first(left.parse.pdf.max_pages as nat, l4, right.parse.pdf.max_pages as nat, r4);
    lemma_after(",\"pdf_classification_timeout_ms\":"@, l5, r5);
    lemma_number_first(
        left.pdf_classification_timeout_ms as nat,
        l6,
        right.pdf_classification_timeout_ms as nat,
        r6,
    );
    lemma_after("}"@, x, y);
}

/// The bytes that a parse fingerprint is taken of differ wherever the route
/// stack or a setting that shapes parsed content differs.
pub proof fn law_parse_fingerprints_tell_profiles_apart(
    left_stack: RouteStackFingerprintView,
    left: NormalizedScannerProfileV1View,
    right_stack: RouteStackFingerprintView,
    right: NormalizedScannerProfileV1View,
)
    requires
        encode_utf8(parse_fingerprint_json(left_stack, left)) == encode_utf8(
            parse_fingerprint_json(right_stack, right),
        ),
    ensures
        left_stack == right_stack,
        left.parser_profile_version == right.parser_profile_version,
        left.execution.max_file_size_bytes == right.execution.max_file_size_bytes,
        left.execution.file_timeout_ms == right.execution.file_timeout_ms,
        left.execution.file_timeout_by_extension_ms
            == right.execution.file_timeout_by_extension_ms,
        left.parse == right.parse,
{
    broadcast use encode_utf8_decode_utf8;

    let l = parse_fingerprint_json(left_stack, left);
    let r = parse_fingerprint_json(right_stack, right);
    assert(decode_utf8(encode_utf8(l)) == decode_utf8(encode_utf8(r)));
    lemma_fingerprint_first(
        left_stack,
        left,
        Seq::empty(),
        right_stack,
        right,
        Seq::empty(),
    );
}

/// The bytes that a classifier fingerprint is taken of differ wherever the
/// policy, the page limit or the timeout of classification differs.
pub proof fn law_classifier_fingerprints_tell_profiles_apart(
    left: NormalizedScannerProfileV2View,
    right: NormalizedScannerProfileV2View,
)
    requires
        encode_utf8(classifier_fingerprint_json(left)) == encode_utf8(
            classifier_fingerprint_json(right),
        ),
    ensures
        left.classifier_policy_version == right.classifier_policy_version,
        left.parse.pdf.max_pages == right.parse.pdf.max_pages,
        left.pdf_classification_timeout_ms == right.pdf_classification_timeout_ms,
{
    broadcast use encode_utf8_decode_utf8;

    let l = classifier_fingerprint_json(left);
    let r = classifier_fingerprint_json(right);
    assert(decode_utf8(encode_utf8(l)) == decode_utf8(encode_utf8(r)));
    lemma_classifier_first(left, Seq::empty(), right, Seq::empty());
}

proof fn lemma_scanner_profile_parts(
    profile: NormalizedScannerProfileV1View,
    sections: ProfileSectionsView,
    rest: Seq<char>,
)
    ensures
        scanner_profile_json(profile, sections) + rest ==
            "{\"schema_version\":"@ + (json_text(sections.schema_version) + (
            ",\"parser_profile_version\":"@ + (json_text(profile.parser_profile_version) + (
            ",\"discovery\":"@ + (sections.discovery_json + (",\"execution\":"@ + (
            sections.execution_json + (",\"parse\":"@ + (parse_json(profile.parse) + (
            "}"@ + rest)))))))))),
{
    let f1 = "{\"schema_version\":"@ + json_text(sections.schema_version);
    let f2 = f1 + ",\"parser_profile_version\":"@;
    let f3 = f2 + json_text(profile.parser_profile_version);
    let f4 = f3 + ",\"discovery\":"@;
    let f5 = f4 + sections.discovery_json;
    let f6 = f5 + ",\"execution\":"@;
    let f7 = f6 + sections.execution_json;
    let f8 = f7 + ",\"parse\":"@;
    let f9 = f8 + parse_json(profile.parse);
    lemma_regroup(f9, "}"@, rest);
    let t10 = "}"@ + rest;
    lemma_regroup(f8, parse_json(profile.parse), t10);
    let t9 = parse_json(profile.parse) + t10;
    lemma_regroup(f7, ",\"parse\":"@, t9);
    let t8 = ",\"parse\":"@ + t9;
    lemma_regroup(f6, sections.execution_json, t8);
    let t7 = sections.execution_json + t8;
    lemma_regroup(f5, ",\"execution\":"@, t7);
    let t6 = ",\"execution\":"@ + t7;
    lemma_regroup(f4, sections.discovery_json, t6);
    let t5 = sections.discovery_json + t6;
    lemma_regroup(f3, ",\"discovery\":"@, t5);
    let t4 = ",\"discovery\":"@ + t5;
    lemma_regroup(f2, json_text(profile.parser_profile_version), t4);
    let t3 = json_text(profile.parser_profile_version) + t4;
    lemma_regroup(f1, ",\"parser_profile_version\":"@, t3);
    let t2 = ",\"parser_profile_version\":"@ + t3;
    lemma_regroup("{\"schema_version\":"@, json_text(sections.schema_version), t2);
}

proof fn lemma_request_parts(
    request: BuildContextRequestView,
    profile: NormalizedScannerProfileV1View,
    sections: ProfileSectionsView,
    work_dir: Seq<char>,
    rest: Seq<char>,
)
    ensures
        request_json(request, profile, sections, work_dir) + rest ==
            "{\"contract\":"@ + (json_text(request.contract) + (",\"protocol_version\":"@ + (
            decimal(request.protocol_version as nat) + (",\"work_dir\":"@ + (
            json_text(work_dir) + (",\"start_date\":"@ + (json_text(request.start_date) + (
            ",\"end_date\":"@ + (json_text(request.end_date) + (",\"report_mode\":"@ + (
            json_text(request.report_mode) + (",\"scanner_profile\":"@ + (
            scanner_profile_json(profile, sections) + (",\"context_profile\":"@ + (
            sections.context_json + ("}"@ + rest)))))))))))))))),
{
    let f1 = "{\"contract\":"@ + json_text(request.contract);
    let f2 = f1 + ",\"protocol_version\":"@;
    let f3 = f2 + decimal(request.protocol_version as nat);
    let f4 = f3 + ",\"work_dir\":"@;
    let f5 = f4 + json_text(work_dir);
    let f6 = f5 + ",\"start_date\":"@;
    let f7 = f6 + json_text(request.start_date);
    let f8 = f7 + ",\"end_date\":"@;
    let f9 = f8 + json_text(request.end_date);
    let f10 = f9 + ",\"report_mode\":"@;
    let f11 = f10 + json_text(request.report_mode);
    let f12 = f11 + ",\"scanner_profile\":"@;
    let f13 = f12 + scanner_profile_json(profile, sections);
    let f14 = f13 + ",\"context_profile\":"@;
    let f15 = f14 + sections.context_json;
    lemma_regroup(f15, "}"@, rest);
    let t16 = "}"@ + rest;
    lemma_regroup(f14, sections.context_json, t16);
    let t15 = sections.context_json + t16;
    lemma_regroup(f13, ",\"context_profile\":"@, t15);
    let t14 = ",\"context_profile\":"@ + t15;
    lemma_regroup(f12, scanner_profile_json(profile, sections), t14);
    let t13 = scanner_profile_json(profile, sections) + t14;
    lemma_regroup(f11, ",\"scanner_profile\":"@, t13);
    let t12 = ",\"scanner_profile\":"@ + t13;
    lemma_regroup(f10, json_text(request.report_mode), t12);
    let t11 = json_text(request.report_mode) + t12;
    lemma_regroup(f9, ",\"report_mode\":"@, t11);
    let t10 = ",\"report_mode\":"@ + t11;
    lemma_regroup(f8, json_text(request.end_date), t10);
    let t9 = json_text(request.end_date) + t10;
    lemma_regroup(f7, ",\"end_date\":"@, t9);
    let t8 = ",\"end_date\":"@ + t9;
    lemma_regroup(f6, json_text(request.start_date), t8);
    let t7 = json_text(request.start_date) + t8;
    lemma_regroup(f5, ",\"start_date\":"@, t7);
    let t6 = ",\"start_date\":"@ + t7;
    lemma_regroup(f4, json_text(work_dir), t6);
    let t5 = json_text(work_dir) + t6;
    lemma_regroup(f3, ",\"work_dir\":"@, t5);
    let t4 = ",\"work_dir\":"@ + t5;
    lemma_regroup(f2, decimal(request.protocol_version as nat), t4);
    let t3 = decimal(request.protocol_version as nat) + t4;
    lemma_regroup(f1, ",\"protocol_version\":"@, t3);
    let t2 = ",\"protocol_version\":"@ + t3;
    lemma_regroup("{\"contract\":"@, json_text(request.contract), t2);
}

/// The canonical JSON of a request tells logical inputs apart: requests with the same one
/// have the same contract, protocol, working directory, dates and report mode, and their
/// profiles have the same schema and parser version.
pub proof fn law_canonical_requests_tell_inputs_apart(
    left: BuildContextRequestView,
    left_profile: NormalizedScannerProfileV1View,
    left_sections: ProfileSectionsView,
    left_dir: Seq<char>,
    right: BuildContextRequestView,
    right_profile: NormalizedScannerProfileV1View,
    right_sections: ProfileSectionsView,
    right_dir: Seq<char>,
)
    requires
        request_json(left, left_profile, left_sections, left_dir) == request_json(
            right,
            right_profile,
            right_sections,
            right_dir,
        ),
    ensures
        left.contract == right.contract,
        left.protocol_version == right.protocol_version,
        left_dir == right_dir,
        left.start_date == right.start_date,
        left.end_date == right.end_date,
        left.report_mode == right.report_mode,
        left_sections.schema_version == right_sections.schema_version,
        left_profile.parser_profile_version == right_profile.parser_profile_version,
{
    reveal_strlit(",\"work_dir\":");
    let none = Seq::<char>::empty();
    lemma_request_parts(left, left_profile, left_sections, left_dir, none);
    lemma_request_parts(right, right_profile, right_sections, right_dir, none);
    let l16 = "}"@ + none;
    let l15 = left_sections.context_json + l16;
    let l14 = ",\"context_profile\":"@ + l15;
    let l13 = scanner_profile_json(left_profile, left_sections) + l14;
    let l12 = ",\"scanner_profile\":"@ + l13;
    let l11 = json_text(left.report_mode) + l12;
    let l10 = ",\"report_mode\":"@ + l11;
    let l9 = json_text(left.end_date) + l10;
    let l8 = ",\"end_date\":"@ + l9;
    let l7 = json_text(left.start_date) + l8;
    let l6 = ",\"start_date\":"@ + l7;
    let l5 = json_text(left_dir) + l6;
    let l4 = ",\"work_dir\":"@ + l5;
    let l3 = decimal(left.protocol_version as nat) + l4;
    let l2 = ",\"protocol_version\":"@ + l3;
    let l1 = json_text(left.contract) + l2;
    let lp10 = "}"@ + l14;
    let lp9 = parse_json(left_profile.parse) + lp10;
    let lp8 = ",\"parse\":"@ + lp9;
    let lp7 = left_sections.execution_json + lp8;
    let lp6 = ",\"execution\":"@ + lp7;
    let lp5 = left_sections.discovery_json + lp6;
    let lp4 = ",\"discovery\":"@ + lp5;
    let lp3 = json_text(left_profile.parser_profile_version) + lp4;
    let lp2 = ",\"parser_profile_version\":"@ + lp3;
    let lp1 = json_text(left_sections.schema_version) + lp2;
    let r16 = "}"@ + none;
    let r15 = right_sections.context_json + r16;
    let r14 = ",\"context_profile\":"@ + r15;
    let r13 = scanner_profile_json(right_profile, right_sections) + r14;
    let r12 = ",\"scanner_profile\":"@ + r13;
    let r11 = json_text(right.report_mode) + r12;
    let r10 = ",\"report_mode\":"@ + r11;
    let r9 = json_text(right.end_date) + r10;
    let r8 = ",\"end_date\":"@ + r9;
    let r7 = json_text(right.start_date) + r8;
    let r6 = ",\"start_date\":"@ + r7;
    let r5 = json_text(right_dir) + r6;
    let r4 = ",\"work_dir\":"@ + r5;
    let r3 = decimal(right.protocol_version as nat) + r4;
    let r2 = ",\"protocol_version\":"@ + r3;
    let r1 = json_text(right.contract) + r2;
    let rp10 = "}"@ + r14;
    let rp9 = parse_json(right_profile.parse) + rp10;
    let rp8 = ",\"parse\":"@ + rp9;
    let rp7 = right_sections.execution_json + rp8;
    let rp6 = ",\"execution\":"@ + rp7;
    let rp5 = right_sections.discovery_json + rp6;
    let rp4 = ",\"discovery\":"@ + rp5;
    let rp3 = json_text(right_profile.parser_profile_version) + rp4;
    let rp2 = ",\"parser_profile_version\":"@ + rp3;
    let rp1 = json_text(right_sections.schema_version) + rp2;
    lemma_after("{\"contract\":"@, l1, r1);
    law_json_strings_end_themselves(left.contract, l2, right.contract, r2);
    lemma_after(",\"protocol_version\":"@, l3, r3);
    lemma_number_first(left.protocol_version as nat, l4, right.protocol_version as nat, r4);
    lemma_after(",\"work_dir\":"@, l5, r5);
    law_json_strings_end_themselves(left_dir, l6, right_dir, r6);
    lemma_after(",\"start_date\":"@, l7, r7);
    law_json_strings_end_themselves(left.start_date, l8, right.start_date, r8);
    lemma_after(",\"end_date\":"@, l9, r9);
    law_json_strings_end_themselves(left.end_date, l10, right.end_date, r10);
    lemma_after(",\"report_mode\":"@, l11, r11);
    law_json_strings_end_themselves(left.report_mode, l12, right.report_mode, r12);
    lemma_after(",\"scanner_profile\":"@, l13, r13);
    lemma_scanner_profile_parts(left_profile, left_sections, l14);
    lemma_scanner_profile_parts(right_profile, right_sections, r14);
    lemma_after("{\"schema_version\":"@, lp1, rp1);
    law_json_strings_end_themselves(
        left_sections.schema_version,
        lp2,
        right_sections.schema_version,
        rp2,
    );
    lemma_after(",\"parser_profile_version\":"@, lp3, rp3);
    law_json_strings_end_themselves(
        left_profile.parser_profile_version,
        lp4,
        right_profile.parser_profile_version,
        rp4,
    );
}

/// The settings that shape parsed content are the same.
pub open spec fn same_parse_settings(
    left: NormalizedScannerProfileV1View,
    right: NormalizedScannerProfileV1View,
) -> bool {
    &&& left.parser_profile_version == right.parser_profile_version
    &&& left.execution.max_file_size_bytes == right.execution.max_file_size_bytes
    &&& left.execution.file_timeout_ms == right.execution.file_timeout_ms
    &&& left.execution.file_timeout_by_extension_ms
        == right.execution.file_timeout_by_extension_ms
    &&& left.parse == right.parse
}

/// The settings that shape classifications are the same.
pub open spec fn same_classifier_settings(
    left: NormalizedScannerProfileV2View,
    right: NormalizedScannerProfileV2View,
) -> bool {
    &&& left.classifier_policy_version == right.classifier_policy_version
    &&& left.parse.pdf.max_pages == right.parse.pdf.max_pages
    &&& left.pdf_classification_timeout_ms == right.pdf_classification_timeout_ms
}

/// SHA-256 gives the two byte strings the same digest only where they are the same.
pub open spec fn no_collision(left: Seq<u8>, right: Seq<u8>) -> bool {
    sha256(left) == sha256(right) ==> left == right
}

proof fn lemma_same_text(domain: Seq<u8>, left: Seq<char>, right: Seq<char>)
    requires
        no_collision(domain + encode_utf8(left), domain + encode_utf8(right)),
        sha256_text(domain + encode_utf8(left)) == sha256_text(domain + encode_utf8(right)),
    ensures
        encode_utf8(left) == encode_utf8(right),
{
    let l = encode_utf8(left);
    let r = encode_utf8(right);
    law_hex_injective(sha256(domain + l), sha256(domain + r));
    assert((domain + l).len() == domain.len() + l.len());
    assert((domain + r).len() == domain.len() + r.len());
    assert forall|i: int| 0 <= i < l.len() implies l[i] == r[i] by {
        assert((domain + l)[domain.len() + i] == l[i]);
        assert((domain + r)[domain.len() + i] == r[i]);
    }
    assert(l =~= r);
}

/// Two parse profile hashes are the same exactly where the route stacks and all settings
/// that shape parsed content are, as far as SHA-256 has no collision: the number of workers
/// does not matter, and every other change gives another hash.
pub proof fn law_parse_profile_hashes_are_of_the_settings(
    left_stack: RouteStackFingerprintView,
    left: NormalizedScannerProfileV1View,
    right_stack: RouteStackFingerprintView,
    right: NormalizedScannerProfileV1View,
)
    requires
        no_collision(
            parse_profile_domain() + encode_utf8(parse_fingerprint_json(left_stack, left)),
            parse_profile_domain() + encode_utf8(parse_fingerprint_json(right_stack, right)),
        ),
    ensures
        parse_profile_digest(left_stack, left) == parse_profile_digest(right_stack, right) <==> (
        left_stack == right_stack && same_parse_settings(left, right)),
{
    if parse_profile_digest(left_stack, left) == parse_profile_digest(right_stack, right) {
        lemma_same_text(
            parse_profile_domain(),
            parse_fingerprint_json(left_stack, left),
            parse_fingerprint_json(right_stack, right),
        );
        law_parse_fingerprints_tell_profiles_apart(left_stack, left, right_stack, right);
    }
}

/// Two classifier profile hashes are the same exactly where the policy, the page limit and
/// the timeout of classification are, as far as SHA-256 has no collision: quotas and session
/// settings do not matter.
pub proof fn law_classifier_profile_hashes_are_of_the_settings(
    left: NormalizedScannerProfileV2View,
    right: NormalizedScannerProfileV2View,
)
    requires
        no_collision(
            classifier_profile_domain() + encode_utf8(classifier_fingerprint_json(left)),
            classifier_profile_domain() + encode_utf8(classifier_fingerprint_json(right)),
        ),
    ensures
        classifier_profile_digest(left) == classifier_profile_digest(right)
            <==> same_classifier_settings(left, right),
{
    if classifier_profile_digest(left) == classifier_profile_digest(right) {
        lemma_same_text(
            classifier_profile_domain(),
            classifier_fingerprint_json(left),
            classifier_fingerprint_json(right),
        );
        law_classifier_fingerprints_tell_profiles_apart(left, right);
    }
}

} // verus!
