//! Lazily decoded JSON values: a value knows its own kind and keeps the
//! text of its children undecoded, as slices of the document they came from.

use std::ops::Range;
use std::rc::Rc;
use vstd::prelude::*;
use vstd::string::*;
use vstd::utf8::{
    decode_utf8, encode_utf8, encode_utf8_decode_utf8, encode_utf8_valid_utf8, is_char_boundary,
    is_char_boundary_iff_not_is_continuation_byte, is_char_boundary_start_end_of_seq,
};

verus! {

/// Whether two texts are the same.
pub fn same_text(a: &str, b: &str) -> (same: bool)
    ensures
        same == (a@ == b@),
{
    let left = String::from_str(a);
    let right = String::from_str(b);
    left == right
}

/// The bytes of a text, as it is stored.
pub open spec fn utf8(text: Seq<char>) -> Seq<u8> {
    encode_utf8(text)
}

/// Whether the bytes of `hay` from `start` on begin with `needle`.
pub fn bytes_at(hay: &[u8], start: usize, needle: &[u8]) -> (found: bool)
    requires
        start + needle@.len() <= hay@.len(),
    ensures
        found == (hay@.subrange(start as int, start + needle@.len()) == needle@),
{
    let n: usize = needle.len();
    let total: usize = hay.len();
    let mut i: usize = 0;
    while i < n
        invariant
            i <= n,
            n == needle@.len(),
            total == hay@.len(),
            start + n <= total,
            forall|j: int| 0 <= j < i ==> hay@[start + j] == needle@[j],
        decreases n - i,
    {
        if hay[start + i] != needle[i] {
            assert(hay@.subrange(start as int, start + n)[i as int] == hay@[start + i]);
            return false;
        }
        i += 1;
    }
    assert(hay@.subrange(start as int, start + n) =~= needle@);
    true
}

/// A text that is either a stretch of a shared document or a text of its
/// own. The stretch is a range of the document's bytes.
#[derive(Debug)]
pub enum LazyStr {
    Reused { origin: Rc<String>, range: Range<usize> },
    Owned(String),
}

impl View for LazyStr {
    type V = Seq<char>;

    open spec fn view(&self) -> Seq<char> {
        match self {
            LazyStr::Reused { origin, range } => decode_utf8(
                utf8(origin@).subrange(range.start as int, range.end as int),
            ),
            LazyStr::Owned(s) => s@,
        }
    }
}

impl LazyStr {
    /// A stretch lies within its document and cuts no character in two.
    pub open spec fn wf(&self) -> bool {
        match self {
            LazyStr::Reused { origin, range } => {
                &&& range.start <= range.end <= utf8(origin@).len()
                &&& is_char_boundary(utf8(origin@), range.start as int)
                &&& is_char_boundary(utf8(origin@), range.end as int)
            },
            LazyStr::Owned(_) => true,
        }
    }

    /// The text.
    pub fn as_str(&self) -> (text: &str)
        requires
            self.wf(),
        ensures
            text@ == self@,
    {
        match self {
            LazyStr::Reused { origin, range } => {
                let whole = origin.as_str();
                let (_, tail) = whole.split_at(range.start);
                let length: usize = range.end - range.start;
                proof {
                    let all = whole.spec_bytes();
                    let rest = tail.spec_bytes();
                    encode_utf8_valid_utf8(whole@);
                    encode_utf8_valid_utf8(tail@);
                    assert(rest =~= all.subrange(range.start as int, all.len() as int));
                    if length < rest.len() {
                        is_char_boundary_iff_not_is_continuation_byte(all, range.end as int);
                        is_char_boundary_iff_not_is_continuation_byte(rest, length as int);
                        assert(rest[length as int] == all[range.end as int]);
                    } else {
                        is_char_boundary_start_end_of_seq(rest);
                    }
                }
                let (text, _) = tail.split_at(length);
                proof {
                    encode_utf8_decode_utf8(text@);
                    assert(text.spec_bytes() =~= whole.spec_bytes().subrange(
                        range.start as int,
                        range.end as int,
                    ));
                }
                text
            },
            LazyStr::Owned(s) => s.as_str(),
        }
    }

    /// Another handle on the same text; a shared document stays shared.
    pub fn share(&self) -> (copy: LazyStr)
        ensures
            copy == *self,
    {
        match self {
            LazyStr::Reused { origin, range } => LazyStr::Reused {
                origin: Rc::clone(origin),
                range: range.start..range.end,
            },
            LazyStr::Owned(s) => LazyStr::Owned(s.clone()),
        }
    }

    /// Whether two texts read the same, wherever they are kept.
    pub fn same_as(&self, other: &LazyStr) -> (same: bool)
        requires
            self.wf(),
            other.wf(),
        ensures
            same == (self@ == other@),
    {
        same_text(self.as_str(), other.as_str())
    }
}

/// The kinds of JSON value.
#[derive(Clone, Copy, Debug, PartialEq, Eq, Structural)]
pub enum LazyValueKind {
    Null,
    Bool,
    Number,
    String,
    Array,
    Object,
}

impl LazyValueKind {
    /// The number that stands for the kind: 0 for null up to 5 for object.
    pub open spec fn code_of(self) -> u8 {
        match self {
            LazyValueKind::Null => 0,
            LazyValueKind::Bool => 1,
            LazyValueKind::Number => 2,
            LazyValueKind::String => 3,
            LazyValueKind::Array => 4,
            LazyValueKind::Object => 5,
        }
    }

    /// The number that stands for the kind.
    pub fn code(self) -> (code: u8)
        ensures
            code == self.code_of(),
    {
        match self {
            LazyValueKind::Null => 0,
            LazyValueKind::Bool => 1,
            LazyValueKind::Number => 2,
            LazyValueKind::String => 3,
            LazyValueKind::Array => 4,
            LazyValueKind::Object => 5,
        }
    }
}

/// One member of an object: its key and the text of its value.
pub type Member = (LazyStr, LazyStr);

/// What a list of texts says.
pub open spec fn element_views(elements: Seq<LazyStr>) -> Seq<Seq<char>> {
    elements.map_values(|e: LazyStr| e@)
}

/// What a list of members says.
pub open spec fn member_views(members: Seq<Member>) -> Seq<(Seq<char>, Seq<char>)> {
    members.map_values(|m: Member| (m.0@, m.1@))
}

/// The place of the member with this key, if there is one.
pub open spec fn member_slot(members: Seq<(Seq<char>, Seq<char>)>, key: Seq<char>) -> Option<int>
    decreases members.len(),
{
    if members.len() == 0 {
        None
    } else {
        match member_slot(members.drop_last(), key) {
            Some(k) => Some(k),
            None => if members.last().0 == key {
                Some(members.len() - 1)
            } else {
                None
            },
        }
    }
}

/// `member_slot` finds the first member with the key, and none only where
/// there is none.
pub proof fn lemma_member_slot(members: Seq<(Seq<char>, Seq<char>)>, key: Seq<char>)
    ensures
        match member_slot(members, key) {
            Some(k) => {
                &&& 0 <= k < members.len()
                &&& members[k].0 == key
                &&& forall|j: int| 0 <= j < k ==> members[j].0 != key
            },
            None => forall|j: int| 0 <= j < members.len() ==> members[j].0 != key,
        },
    decreases members.len(),
{
    if members.len() > 0 {
        lemma_member_slot(members.drop_last(), key);
        assert forall|j: int| 0 <= j < members.len() - 1 implies members[j] == members.drop_last()[j] by {}
    }
}

/// The members after `key` was set to `value`: a known key keeps its place
/// and gets the new value, a new key goes to the end.
pub open spec fn with_member(
    members: Seq<(Seq<char>, Seq<char>)>,
    key: Seq<char>,
    value: Seq<char>,
) -> Seq<(Seq<char>, Seq<char>)> {
    match member_slot(members, key) {
        Some(k) => members.update(k, (key, value)),
        None => members.push((key, value)),
    }
}

/// The members after each of `entries` was set, in order.
pub open spec fn with_members(entries: Seq<(Seq<char>, Seq<char>)>) -> Seq<(Seq<char>, Seq<char>)>
    decreases entries.len(),
{
    if entries.len() == 0 {
        Seq::empty()
    } else {
        with_member(with_members(entries.drop_last()), entries.last().0, entries.last().1)
    }
}

/// A JSON value as plain values. A number is given by the bits of its
/// double; an array by the text of each element; an object by the key and
/// the text of each member.
pub ghost enum LazyValueView {
    Null,
    Bool(bool),
    Number(u64),
    String(Seq<char>),
    Array(Seq<Seq<char>>),
    Object(Seq<(Seq<char>, Seq<char>)>),
}

/// A JSON value, decoded one level deep.
#[derive(Debug)]
pub enum LazyValue {
    Null,
    Bool(bool),
    /// The bits of the number as an IEEE 754 double.
    Number(u64),
    String(LazyStr),
    /// The undecoded text of each element.
    Array(Vec<LazyStr>),
    /// The key and the undecoded text of each member, in the order the keys
    /// first appeared.
    Object(Vec<Member>),
}

impl View for LazyValue {
    type V = LazyValueView;

    open spec fn view(&self) -> LazyValueView {
        match self {
            LazyValue::Null => LazyValueView::Null,
            LazyValue::Bool(b) => LazyValueView::Bool(*b),
            LazyValue::Number(bits) => LazyValueView::Number(*bits),
            LazyValue::String(s) => LazyValueView::String(s@),
            LazyValue::Array(elements) => LazyValueView::Array(element_views(elements@)),
            LazyValue::Object(members) => LazyValueView::Object(member_views(members@)),
        }
    }
}

/// Every text of the list lies within its document.
pub open spec fn elements_wf(elements: Seq<LazyStr>) -> bool {
    forall|i: int| 0 <= i < elements.len() ==> (#[trigger] elements[i]).wf()
}

/// Every text of the members lies within its document, and no key occurs twice.
pub open spec fn members_wf(members: Seq<Member>) -> bool {
    &&& forall|i: int| 0 <= i < members.len() ==> (#[trigger] members[i]).0.wf() && members[i].1.wf()
    &&& forall|i: int, j: int|
        0 <= i < j < members.len() ==> (#[trigger] members[i]).0@ != (#[trigger] members[j]).0@
}

fn find_member(members: &Vec<Member>, key: &str) -> (slot: Option<usize>)
    requires
        members_wf(members@),
    ensures
        match slot {
            Some(k) => member_slot(member_views(members@), key@) == Some(k as int) && k < members@.len(),
            None => member_slot(member_views(members@), key@) is None,
        },
{
    let ghost views = member_views(members@);
    proof {
        lemma_member_slot(views, key@);
    }
    let mut i: usize = 0;
    while i < members.len()
        invariant
            i <= members.len(),
            members_wf(members@),
            views == member_views(members@),
            forall|j: int| 0 <= j < i ==> views[j].0 != key@,
            match member_slot(views, key@) {
                Some(k) => {
                    &&& 0 <= k < views.len()
                    &&& views[k].0 == key@
                    &&& forall|j: int| 0 <= j < k ==> views[j].0 != key@
                },
                None => forall|j: int| 0 <= j < views.len() ==> views[j].0 != key@,
            },
        decreases members.len() - i,
    {
        assert(views[i as int] == (members@[i as int].0@, members@[i as int].1@));
        assert(members@[i as int].0.wf());
        if same_text(members[i].0.as_str(), key) {
            return Some(i);
        }
        i += 1;
    }
    None
}

impl LazyValue {
    /// Every text of the value lies within its document, and an object has
    /// no key twice.
    pub open spec fn wf(&self) -> bool {
        match self {
            LazyValue::String(s) => s.wf(),
            LazyValue::Array(elements) => elements_wf(elements@),
            LazyValue::Object(members) => members_wf(members@),
            _ => true,
        }
    }

    /// The kind of the value.
    pub fn kind(&self) -> (kind: LazyValueKind)
        ensures
            kind == match self@ {
                LazyValueView::Null => LazyValueKind::Null,
                LazyValueView::Bool(_) => LazyValueKind::Bool,
                LazyValueView::Number(_) => LazyValueKind::Number,
                LazyValueView::String(_) => LazyValueKind::String,
                LazyValueView::Array(_) => LazyValueKind::Array,
                LazyValueView::Object(_) => LazyValueKind::Object,
            },
    {
        match self {
            LazyValue::Null => LazyValueKind::Null,
            LazyValue::Bool(_) => LazyValueKind::Bool,
            LazyValue::Number(_) => LazyValueKind::Number,
            LazyValue::String(_) => LazyValueKind::String,
            LazyValue::Array(_) => LazyValueKind::Array,
            LazyValue::Object(_) => LazyValueKind::Object,
        }
    }

    /// The boolean that the value is.
    pub fn as_bool(&self) -> (b: bool)
        requires
            self@ is Bool,
        ensures
            self@ == LazyValueView::Bool(b),
    {
        match self {
            LazyValue::Bool(b) => *b,
            _ => false,
        }
    }

    /// The number that the value is, as the bits of its double.
    pub fn as_number(&self) -> (bits: u64)
        requires
            self@ is Number,
        ensures
            self@ == LazyValueView::Number(bits),
    {
        match self {
            LazyValue::Number(bits) => *bits,
            _ => 0,
        }
    }

    /// The string that the value is.
    pub fn as_string(&self) -> (text: &str)
        requires
            self@ is String,
            self.wf(),
        ensures
            self@ == LazyValueView::String(text@),
    {
        match self {
            LazyValue::String(s) => s.as_str(),
            _ => "",
        }
    }

    /// The number of elements of the array.
    pub fn get_array_length(&self) -> (length: u32)
        requires
            self@ is Array,
            self@->Array_0.len() <= u32::MAX,
        ensures
            length == self@->Array_0.len(),
    {
        match self {
            LazyValue::Array(elements) => elements.len() as u32,
            _ => 0,
        }
    }

    /// The undecoded text of the array's element at `index`.
    pub fn get_array_element(&self, index: u32) -> (text: &str)
        requires
            self@ is Array,
            self.wf(),
            index < self@->Array_0.len(),
        ensures
            text@ == self@->Array_0[index as int],
    {
        match self {
            LazyValue::Array(elements) => {
                assert(elements@[index as int].wf());
                elements[index as usize].as_str()
            },
            _ => "",
        }
    }

    /// Whether the object has a member with this key.
    pub fn has_object_element(&self, key: &str) -> (has: bool)
        requires
            self@ is Object,
            self.wf(),
        ensures
            has == member_slot(self@->Object_0, key@) is Some,
    {
        match self {
            LazyValue::Object(members) => find_member(members, key).is_some(),
            _ => false,
        }
    }

    /// The undecoded text of the object's member with this key.
    pub fn get_object_element_str(&self, key: &str) -> (text: &str)
        requires
            self@ is Object,
            self.wf(),
            member_slot(self@->Object_0, key@) is Some,
        ensures
            text@ == self@->Object_0[member_slot(self@->Object_0, key@)->0].1,
    {
        match self {
            LazyValue::Object(members) => {
                match find_member(members, key) {
                    Some(k) => {
                        assert(members@[k as int].1.wf());
                        members[k].1.as_str()
                    },
                    None => "",
                }
            },
            _ => "",
        }
    }

    /// The number of members of the object.
    pub fn get_object_length(&self) -> (length: u32)
        requires
            self@ is Object,
            self@->Object_0.len() <= u32::MAX,
        ensures
            length == self@->Object_0.len(),
    {
        match self {
            LazyValue::Object(members) => members.len() as u32,
            _ => 0,
        }
    }

    /// An iterator over the members of the object, in their order.
    pub fn iter_elements(&self) -> (iter: LazyValueObjectIterator)
        requires
            self@ is Object,
            self.wf(),
        ensures
            iter.wf(),
            iter.remaining() == self@->Object_0,
    {
        match self {
            LazyValue::Object(members) => {
                let mut map: Vec<Member> = Vec::new();
                let mut i: usize = 0;
                while i < members.len()
                    invariant
                        i <= members.len(),
                        map@ == members@.subrange(0, i as int),
                    decreases members.len() - i,
                {
                    let key = members[i].0.share();
                    let value = members[i].1.share();
                    map.push((key, value));
                    assert(map@ =~= members@.subrange(0, i + 1));
                    i += 1;
                }
                assert(members@.subrange(0, i as int) =~= members@);
                assert(map@.subrange(0, map@.len() as int) =~= map@);
                LazyValueObjectIterator { map, position: 0 }
            },
            _ => LazyValueObjectIterator { map: Vec::new(), position: 0 },
        }
    }
}

/// Walks over the members of an object.
#[derive(Debug)]
pub struct LazyValueObjectIterator {
    map: Vec<Member>,
    position: usize,
}

impl LazyValueObjectIterator {
    /// The members that are still to come.
    pub closed spec fn remaining(&self) -> Seq<(Seq<char>, Seq<char>)> {
        member_views(self.map@.subrange(self.position as int, self.map@.len() as int))
    }

    /// The iterator stands within its members, and they are in order.
    pub closed spec fn wf(&self) -> bool {
        &&& self.position <= self.map@.len()
        &&& members_wf(self.map@)
    }

    /// Whether a member is still to come.
    pub fn has_next(&self) -> (more: bool)
        requires
            self.wf(),
        ensures
            more == (self.remaining().len() > 0),
    {
        self.position < self.map.len()
    }

    /// The next member.
    pub fn next_pair(&mut self) -> (pair: LazyValueObjectPair)
        requires
            old(self).wf(),
            old(self).remaining().len() > 0,
        ensures
            final(self).wf(),
            final(self).remaining() == old(self).remaining().subrange(
                1,
                old(self).remaining().len() as int,
            ),
            pair.wf(),
            pair.key_view() == old(self).remaining()[0].0,
            pair.value_view() == Some(old(self).remaining()[0].1),
    {
        let ghost before = self.remaining();
        let ghost rest = self.map@.subrange(self.position as int, self.map@.len() as int);
        assert(before.len() == rest.len());
        assert(self.position < self.map.len());
        assert(rest[0] == self.map@[self.position as int]);
        assert(self.map@[self.position as int].0.wf());
        let key = self.map[self.position].0.share();
        let value = self.map[self.position].1.share();
        self.position = self.position + 1;
        assert(self.remaining() =~= before.subrange(1, before.len() as int));
        LazyValueObjectPair { key: LazyValue::String(key), value: Some(value) }
    }
}

/// One member of an object, handed out by the iterator: the key as a value
/// of its own, and the text of the member's value until it is taken.
#[derive(Debug)]
pub struct LazyValueObjectPair {
    key: LazyValue,
    value: Option<LazyStr>,
}

impl LazyValueObjectPair {
    /// The key is a string, and the texts lie within their documents.
    pub closed spec fn wf(&self) -> bool {
        &&& self.key is String
        &&& self.key.wf()
        &&& match self.value {
            Some(v) => v.wf(),
            None => true,
        }
    }

    /// The key.
    pub closed spec fn key_view(&self) -> Seq<char> {
        self.key->String_0@
    }

    /// The text of the value, unless it was taken.
    pub closed spec fn value_view(&self) -> Option<Seq<char>> {
        match self.value {
            Some(v) => Some(v@),
            None => None,
        }
    }

    /// The key, as a string value.
    pub fn pair_key(&self) -> (key: &LazyValue)
        requires
            self.wf(),
        ensures
            key@ == LazyValueView::String(self.key_view()),
            key.wf(),
    {
        &self.key
    }

    /// Takes the text of the value. It can be taken once.
    pub fn pair_value(&mut self) -> (value: LazyStr)
        requires
            old(self).wf(),
            old(self).value_view() is Some,
        ensures
            final(self).wf(),
            value.wf(),
            Some(value@) == old(self).value_view(),
            final(self).value_view() is None,
            final(self).key_view() == old(self).key_view(),
    {
        match self.value.take() {
            Some(v) => v,
            None => LazyStr::Owned(String::new()),
        }
    }
}

/// The text with the bytes `text` stands in the document with the bytes
/// `document` at the byte `start`, between two of its characters.
pub open spec fn stands_at(document: Seq<u8>, start: int, text: Seq<u8>) -> bool {
    &&& 0 <= start
    &&& start + text.len() <= document.len()
    &&& document.subrange(start, start + text.len()) == text
    &&& is_char_boundary(document, start)
    &&& is_char_boundary(document, start + text.len())
}

/// Why a value cannot be built.
#[derive(Clone, Copy, Debug, PartialEq, Eq, Structural)]
pub enum DecodeError {
    /// A string was handed over as a text of its own: every string of a
    /// document is a stretch of it.
    DetachedString,
}

/// Builds values from the parts of one document.
#[derive(Debug)]
pub struct LazyValueVisitor(pub Rc<String>);

impl LazyValueVisitor {
    /// Keeps the text `s`, which is said to stand in the document at the
    /// byte `start`. Where it does stand there, the document is shared and
    /// nothing is copied; where it does not, the text is copied.
    pub fn reuse(&self, s: &str, start: usize) -> (kept: LazyStr)
        ensures
            kept.wf(),
            kept@ == s@,
            kept is Reused <==> stands_at(utf8(self.0@), start as int, utf8(s@)),
            kept matches LazyStr::Reused { origin, range } ==> origin == self.0 && range.start == start
                && range.end == start + utf8(s@).len(),
    {
        let whole = self.0.as_str();
        let hay = whole.as_bytes();
        let needle = s.as_bytes();
        let total: usize = hay.len();
        let length: usize = needle.len();
        if start <= total && length <= total - start {
            let end: usize = start + length;
            if whole.is_char_boundary(start) && whole.is_char_boundary(end) && bytes_at(hay, start, needle) {
                proof {
                    encode_utf8_decode_utf8(s@);
                }
                return LazyStr::Reused { origin: Rc::clone(&self.0), range: start..end };
            }
        }
        LazyStr::Owned(String::from_str(s))
    }

    /// The value for a boolean.
    pub fn visit_bool(&self, v: bool) -> (value: LazyValue)
        ensures
            value@ == LazyValueView::Bool(v),
            value.wf(),
    {
        LazyValue::Bool(v)
    }

    /// The value for a number, given by the bits of its double.
    pub fn visit_number(&self, bits: u64) -> (value: LazyValue)
        ensures
            value@ == LazyValueView::Number(bits),
            value.wf(),
    {
        LazyValue::Number(bits)
    }

    /// The value for `null`.
    pub fn visit_unit(&self) -> (value: LazyValue)
        ensures
            value@ == LazyValueView::Null,
            value.wf(),
    {
        LazyValue::Null
    }

    /// The value for a string that stands in the document at `start`.
    pub fn visit_str(&self, v: &str, start: usize) -> (value: LazyValue)
        ensures
            value@ == LazyValueView::String(v@),
            value.wf(),
    {
        LazyValue::String(self.reuse(v, start))
    }

    /// A string that comes as a text of its own is refused.
    pub fn visit_string(&self, v: String) -> (value: Result<LazyValue, DecodeError>)
        ensures
            value matches Err(e) && e == DecodeError::DetachedString,
    {
        Err(DecodeError::DetachedString)
    }

    /// The value for an array: `elements` holds the text of each element
    /// and where it stands in the document.
    pub fn visit_seq(&self, elements: &Vec<(String, usize)>) -> (value: LazyValue)
        ensures
            value.wf(),
            value@ == LazyValueView::Array(elements@.map_values(|e: (String, usize)| e.0@)),
    {
        let mut kept: Vec<LazyStr> = Vec::new();
        let ghost texts = elements@.map_values(|e: (String, usize)| e.0@);
        let mut i: usize = 0;
        while i < elements.len()
            invariant
                i <= elements.len(),
                texts == elements@.map_values(|e: (String, usize)| e.0@),
                elements_wf(kept@),
                element_views(kept@) == texts.subrange(0, i as int),
            decreases elements.len() - i,
        {
            let ghost before = element_views(kept@);
            let text = self.reuse(elements[i].0.as_str(), elements[i].1);
            kept.push(text);
            assert(element_views(kept@) =~= before.push(texts[i as int]));
            assert(before.push(texts[i as int]) =~= texts.subrange(0, i + 1));
            i += 1;
        }
        assert(texts.subrange(0, i as int) =~= texts);
        LazyValue::Array(kept)
    }

    /// The value for an object: `entries` holds, for each member in the
    /// order of the document, the key, the text of the value and where
    /// each stands. A key that comes again replaces the value it had.
    pub fn visit_map(&self, entries: &Vec<((String, usize), (String, usize))>) -> (value: LazyValue)
        ensures
            value.wf(),
            value@ == LazyValueView::Object(
                with_members(
                    entries@.map_values(|e: ((String, usize), (String, usize))| (e.0.0@, e.1.0@)),
                ),
            ),
    {
        let mut members: Vec<Member> = Vec::new();
        let ghost given = entries@.map_values(|e: ((String, usize), (String, usize))| (e.0.0@, e.1.0@));
        let mut i: usize = 0;
        assert(given.subrange(0, 0) =~= Seq::empty());
        assert(member_views(members@) =~= Seq::empty());
        while i < entries.len()
            invariant
                i <= entries.len(),
                given == entries@.map_values(|e: ((String, usize), (String, usize))| (e.0.0@, e.1.0@)),
                members_wf(members@),
                member_views(members@) == with_members(given.subrange(0, i as int)),
            decreases entries.len() - i,
        {
            let ghost before = member_views(members@);
            let ghost old_members = members@;
            let key = self.reuse(entries[i].0.0.as_str(), entries[i].0.1);
            let value = self.reuse(entries[i].1.0.as_str(), entries[i].1.1);
            let ghost k = key@;
            let ghost v = value@;
            proof {
                lemma_member_slot(before, k);
                assert(given.subrange(0, i + 1).drop_last() =~= given.subrange(0, i as int));
                assert(given.subrange(0, i + 1).last() == (k, v));
            }
            match find_member(&members, entries[i].0.0.as_str()) {
                Some(slot) => {
                    members[slot] = (key, value);
                    assert(member_views(members@) =~= before.update(slot as int, (k, v)));
                    assert forall|a: int, b: int| 0 <= a < b < members@.len() implies (
                    #[trigger] members@[a]).0@ != (#[trigger] members@[b]).0@ by {
                        assert(old_members[a].0@ != old_members[b].0@);
                        assert(before[a] == (old_members[a].0@, old_members[a].1@));
                        assert(before[b] == (old_members[b].0@, old_members[b].1@));
                    }
                },
                None => {
                    members.push((key, value));
                    assert(member_views(members@) =~= before.push((k, v)));
                    assert forall|a: int, b: int| 0 <= a < b < members@.len() implies (
                    #[trigger] members@[a]).0@ != (#[trigger] members@[b]).0@ by {
                        if b < old_members.len() {
                            assert(old_members[a].0@ != old_members[b].0@);
                        } else {
                            assert(before[a] == (old_members[a].0@, old_members[a].1@));
                        }
                    }
                },
            }
            i += 1;
        }
        assert(given.subrange(0, i as int) =~= given);
        LazyValue::Object(members)
    }
}

} // verus!
