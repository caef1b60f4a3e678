//! Named binary tags, the tree of data that an item carries.
use vstd::prelude::*;

verus! {

/// A tag. Floating point payloads are held as their bit patterns.
#[derive(Debug)]
pub enum Tag {
    TagEnd,
    TagByte(u8),
    TagShort(u16),
    TagInt(i32),
    TagLong(i64),
    TagFloat(u32),
    TagDouble(u64),
    TagByteArray(Vec<u8>),
    TagString(String),
    TagList((u8, Vec<Tag>)),
    CompoundTag(Vec<(String, Tag)>),
    TagIntArray(Vec<i32>),
    TagLongArray(Vec<i64>),
}

/// What a tag holds.
pub enum Nbt {
    End,
    Byte(u8),
    Short(u16),
    Int(i32),
    Long(i64),
    Float(u32),
    Double(u64),
    ByteArray(Seq<u8>),
    Text(Seq<char>),
    List(u8, Seq<Nbt>),
    Compound(Seq<(Seq<char>, Nbt)>),
    IntArray(Seq<i32>),
    LongArray(Seq<i64>),
}

/// The contents of a tag.
pub open spec fn nbt_of(tag: Tag) -> Nbt
    decreases tag,
{
    match tag {
        Tag::TagEnd => Nbt::End,
        Tag::TagByte(v) => Nbt::Byte(v),
        Tag::TagShort(v) => Nbt::Short(v),
        Tag::TagInt(v) => Nbt::Int(v),
        Tag::TagLong(v) => Nbt::Long(v),
        Tag::TagFloat(v) => Nbt::Float(v),
        Tag::TagDouble(v) => Nbt::Double(v),
        Tag::TagByteArray(v) => Nbt::ByteArray(v@),
        Tag::TagString(v) => Nbt::Text(v@),
        Tag::TagList(list) => Nbt::List(
            list.0,
            Seq::new(
                list.1@.len(),
                |i: int|
                    if 0 <= i < list.1@.len() {
                        nbt_of(list.1@[i])
                    } else {
                        Nbt::End
                    },
            ),
        ),
        Tag::CompoundTag(entries) => Nbt::Compound(
            Seq::new(
                entries@.len(),
                |i: int|
                    if 0 <= i < entries@.len() {
                        (entries@[i].0@, nbt_of(entries@[i].1))
                    } else {
                        (Seq::empty(), Nbt::End)
                    },
            ),
        ),
        Tag::TagIntArray(v) => Nbt::IntArray(v@),
        Tag::TagLongArray(v) => Nbt::LongArray(v@),
    }
}

impl View for Tag {
    type V = Nbt;

    open spec fn view(&self) -> Nbt {
        nbt_of(*self)
    }
}

/// The contents of a list of tags.
pub open spec fn tags_view(tags: Seq<Tag>) -> Seq<Nbt> {
    Seq::new(tags.len(), |i: int| tags[i]@)
}

/// The contents of a list of named tags.
pub open spec fn entries_view(entries: Seq<(String, Tag)>) -> Seq<(Seq<char>, Nbt)> {
    Seq::new(entries.len(), |i: int| (entries[i].0@, entries[i].1@))
}

/// A list tag holds the views of its elements.
pub broadcast proof fn list_view(bit: u8, tags: Vec<Tag>)
    ensures
        #[trigger] Tag::TagList((bit, tags)).view() == Nbt::List(bit, tags_view(tags@)),
{
    let t = Tag::TagList((bit, tags));
    assert(t@->List_1 =~= tags_view(tags@));
}

/// A compound tag holds the views of its entries.
pub broadcast proof fn compound_view(entries: Vec<(String, Tag)>)
    ensures
        #[trigger] Tag::CompoundTag(entries).view() == Nbt::Compound(entries_view(entries@)),
{
    let t = Tag::CompoundTag(entries);
    assert(t@->Compound_0 =~= entries_view(entries@));
}

/// The number under which the kind of a tag is written.
pub open spec fn tag_bit(tag: Nbt) -> u8 {
    match tag {
        Nbt::End => 0,
        Nbt::Byte(_) => 1,
        Nbt::Short(_) => 2,
        Nbt::Int(_) => 3,
        Nbt::Long(_) => 4,
        Nbt::Float(_) => 5,
        Nbt::Double(_) => 6,
        Nbt::ByteArray(_) => 7,
        Nbt::Text(_) => 8,
        Nbt::List(_, _) => 9,
        Nbt::Compound(_) => 10,
        Nbt::IntArray(_) => 11,
        Nbt::LongArray(_) => 12,
    }
}

/// Equality of the floats that two patterns denote: no NaN equals anything, and the
/// two zeros are equal.
pub open spec fn same_float(a: u32, b: u32) -> bool {
    let x = if a >= 0x8000_0000 {
        a - 0x8000_0000
    } else {
        a as int
    };
    let y = if b >= 0x8000_0000 {
        b - 0x8000_0000
    } else {
        b as int
    };
    x <= 0x7F80_0000 && y <= 0x7F80_0000 && (a == b || x == 0 && y == 0)
}

/// Equality of the doubles that two patterns denote.
pub open spec fn same_double(a: u64, b: u64) -> bool {
    !crate::double::nan(a) && !crate::double::nan(b) && (a == b || crate::double::magnitude(a) == 0
        && crate::double::magnitude(b) == 0)
}

/// Equality of tags: kinds and payloads are equal, floating point payloads as numbers.
pub open spec fn same_tag(a: Nbt, b: Nbt) -> bool
    decreases a,
{
    match (a, b) {
        (Nbt::Float(x), Nbt::Float(y)) => same_float(x, y),
        (Nbt::Double(x), Nbt::Double(y)) => same_double(x, y),
        (Nbt::List(p, x), Nbt::List(q, y)) => {
            &&& p == q
            &&& x.len() == y.len()
            &&& forall|i: int| 0 <= i < x.len() ==> same_tag(#[trigger] x[i], y[i])
        },
        (Nbt::Compound(x), Nbt::Compound(y)) => {
            &&& x.len() == y.len()
            &&& forall|i: int|
                0 <= i < x.len() ==> (#[trigger] x[i]).0 == y[i].0 && same_tag(x[i].1, y[i].1)
        },
        _ => a == b,
    }
}

fn float_eq(a: u32, b: u32) -> (r: bool)
    ensures
        r == same_float(a, b),
{
    let x: u32 = if a >= 0x8000_0000 {
        a - 0x8000_0000
    } else {
        a
    };
    let y: u32 = if b >= 0x8000_0000 {
        b - 0x8000_0000
    } else {
        b
    };
    x <= 0x7F80_0000 && y <= 0x7F80_0000 && (a == b || x == 0 && y == 0)
}

fn double_eq(a: u64, b: u64) -> (r: bool)
    ensures
        r == same_double(a, b),
{
    let zero_a: bool = a == 0 || a == crate::double::SIGN;
    let zero_b: bool = b == 0 || b == crate::double::SIGN;
    !crate::double::is_nan(a) && !crate::double::is_nan(b) && (a == b || zero_a && zero_b)
}

fn bytes_eq(a: &Vec<u8>, b: &Vec<u8>) -> (r: bool)
    ensures
        r == (a@ == b@),
{
    if a.len() != b.len() {
        return false;
    }
    let mut i: usize = 0;
    while i < a.len()
        invariant
            i <= a.len(),
            a@.len() == b@.len(),
            forall|j: int| 0 <= j < i ==> a@[j] == b@[j],
        decreases a.len() - i,
    {
        if a[i] != b[i] {
            return false;
        }
        i = i + 1;
    }
    assert(a@ =~= b@);
    true
}

fn ints_eq(a: &Vec<i32>, b: &Vec<i32>) -> (r: bool)
    ensures
        r == (a@ == b@),
{
    if a.len() != b.len() {
        return false;
    }
    let mut i: usize = 0;
    while i < a.len()
        invariant
            i <= a.len(),
            a@.len() == b@.len(),
            forall|j: int| 0 <= j < i ==> a@[j] == b@[j],
        decreases a.len() - i,
    {
        if a[i] != b[i] {
            return false;
        }
        i = i + 1;
    }
    assert(a@ =~= b@);
    true
}

fn longs_eq(a: &Vec<i64>, b: &Vec<i64>) -> (r: bool)
    ensures
        r == (a@ == b@),
{
    if a.len() != b.len() {
        return false;
    }
    let mut i: usize = 0;
    while i < a.len()
        invariant
            i <= a.len(),
            a@.len() == b@.len(),
            forall|j: int| 0 <= j < i ==> a@[j] == b@[j],
        decreases a.len() - i,
    {
        if a[i] != b[i] {
            return false;
        }
        i = i + 1;
    }
    assert(a@ =~= b@);
    true
}

impl Tag {
    /// A tag that holds text.
    pub fn string(text: String) -> (tag: Tag)
        ensures
            tag@ == Nbt::Text(text@),
    {
        Tag::TagString(text)
    }

    /// A tag that holds named tags.
    pub fn compound_tag(entries: Vec<(String, Tag)>) -> (tag: Tag)
        ensures
            tag@ == Nbt::Compound(entries_view(entries@)),
    {
        broadcast use compound_view;

        Tag::CompoundTag(entries)
    }

    /// The number under which the kind of this tag is written.
    pub fn get_tag_bit(&self) -> (bit: u8)
        ensures
            bit == tag_bit(self@),
    {
        match self {
            Tag::TagEnd => 0,
            Tag::TagByte(_) => 1,
            Tag::TagShort(_) => 2,
            Tag::TagInt(_) => 3,
            Tag::TagLong(_) => 4,
            Tag::TagFloat(_) => 5,
            Tag::TagDouble(_) => 6,
            Tag::TagByteArray(_) => 7,
            Tag::TagString(_) => 8,
            Tag::TagList(_) => 9,
            Tag::CompoundTag(_) => 10,
            Tag::TagIntArray(_) => 11,
            Tag::TagLongArray(_) => 12,
        }
    }

    /// Whether two tags are equal.
    pub fn same(&self, other: &Tag) -> (r: bool)
        ensures
            r == same_tag(self@, other@),
        decreases *self,
    {
        broadcast use list_view, compound_view;

        match (self, other) {
            (Tag::TagEnd, Tag::TagEnd) => true,
            (Tag::TagByte(a), Tag::TagByte(b)) => *a == *b,
            (Tag::TagShort(a), Tag::TagShort(b)) => *a == *b,
            (Tag::TagInt(a), Tag::TagInt(b)) => *a == *b,
            (Tag::TagLong(a), Tag::TagLong(b)) => *a == *b,
            (Tag::TagFloat(a), Tag::TagFloat(b)) => float_eq(*a, *b),
            (Tag::TagDouble(a), Tag::TagDouble(b)) => double_eq(*a, *b),
            (Tag::TagByteArray(a), Tag::TagByteArray(b)) => bytes_eq(a, b),
            (Tag::TagString(a), Tag::TagString(b)) => *a == *b,
            (Tag::TagList(a), Tag::TagList(b)) => {
                if a.0 != b.0 || a.1.len() != b.1.len() {
                    return false;
                }
                let mut i: usize = 0;
                while i < a.1.len()
                    invariant
                        i <= a.1.len(),
                        a.1@.len() == b.1@.len(),
                        *self == Tag::TagList(*a),
                        *other == Tag::TagList(*b),
                        a.0 == b.0,
                        forall|j: int|
                            0 <= j < i ==> same_tag(
                                #[trigger] tags_view(a.1@)[j],
                                tags_view(b.1@)[j],
                            ),
                    decreases a.1.len() - i,
                {
                    assert(decreases_to!(*self => self->TagList_0));
                    assert(decreases_to!(a => a.1));
                    assert(decreases_to!(a.1 => a.1@));
                    assert(decreases_to!(a.1@ => a.1@[i as int]));
                    assert(tags_view(a.1@)[i as int] == a.1@[i as int]@);
                    if !a.1[i].same(&b.1[i]) {
                        proof {
                            list_view(a.0, a.1);
                            list_view(b.0, b.1);
                            assert(tags_view(b.1@)[i as int] == b.1@[i as int]@);
                        }
                        return false;
                    }
                    i = i + 1;
                }
                true
            },
            (Tag::CompoundTag(a), Tag::CompoundTag(b)) => {
                if a.len() != b.len() {
                    return false;
                }
                let mut i: usize = 0;
                while i < a.len()
                    invariant
                        i <= a.len(),
                        a@.len() == b@.len(),
                        *self == Tag::CompoundTag(*a),
                        *other == Tag::CompoundTag(*b),
                        forall|j: int|
                            0 <= j < i ==> {
                                &&& (#[trigger] entries_view(a@)[j]).0 == entries_view(b@)[j].0
                                &&& same_tag(entries_view(a@)[j].1, entries_view(b@)[j].1)
                            },
                    decreases a.len() - i,
                {
                    assert(decreases_to!(*self => self->CompoundTag_0));
                    assert(decreases_to!(a => a@));
                    assert(decreases_to!(a@ => a@[i as int]));
                    assert(decreases_to!(a@[i as int] => a@[i as int].1));
                    assert(entries_view(a@)[i as int].1 == a@[i as int].1@);
                    if a[i].0 != b[i].0 || !a[i].1.same(&b[i].1) {
                        proof {
                            compound_view(*a);
                            compound_view(*b);
                            assert(entries_view(b@)[i as int].1 == b@[i as int].1@);
                        }
                        return false;
                    }
                    i = i + 1;
                }
                true
            },
            (Tag::TagIntArray(a), Tag::TagIntArray(b)) => ints_eq(a, b),
            (Tag::TagLongArray(a), Tag::TagLongArray(b)) => longs_eq(a, b),
            _ => false,
        }
    }
}

impl Clone for Tag {
    fn clone(&self) -> (copy: Tag)
        ensures
            copy@ == self@,
        decreases *self,
    {
        broadcast use list_view, compound_view;

        match self {
            Tag::TagEnd => Tag::TagEnd,
            Tag::TagByte(v) => Tag::TagByte(*v),
            Tag::TagShort(v) => Tag::TagShort(*v),
            Tag::TagInt(v) => Tag::TagInt(*v),
            Tag::TagLong(v) => Tag::TagLong(*v),
            Tag::TagFloat(v) => Tag::TagFloat(*v),
            Tag::TagDouble(v) => Tag::TagDouble(*v),
            Tag::TagByteArray(v) => Tag::TagByteArray(v.clone()),
            Tag::TagString(v) => Tag::TagString(v.clone()),
            Tag::TagList(list) => {
                let mut tags: Vec<Tag> = Vec::new();
                let mut i: usize = 0;
                while i < list.1.len()
                    invariant
                        i <= list.1.len(),
                        *self == Tag::TagList(*list),
                        tags@.len() == i,
                        forall|j: int| 0 <= j < i ==> (#[trigger] tags@[j])@ == list.1@[j]@,
                    decreases list.1.len() - i,
                {
                    assert(decreases_to!(*self => self->TagList_0));
                    assert(decreases_to!(list => list.1));
                    assert(decreases_to!(list.1 => list.1@));
                    assert(decreases_to!(list.1@ => list.1@[i as int]));
                    tags.push(list.1[i].clone());
                    i = i + 1;
                }
                assert(tags_view(tags@) =~= tags_view(list.1@));
                Tag::TagList((list.0, tags))
            },
            Tag::CompoundTag(entries) => {
                let mut copies: Vec<(String, Tag)> = Vec::new();
                let mut i: usize = 0;
                while i < entries.len()
                    invariant
                        i <= entries.len(),
                        *self == Tag::CompoundTag(*entries),
                        copies@.len() == i,
                        forall|j: int|
                            0 <= j < i ==> {
                                &&& (#[trigger] copies@[j]).0@ == entries@[j].0@
                                &&& copies@[j].1@ == entries@[j].1@
                            },
                    decreases entries.len() - i,
                {
                    assert(decreases_to!(*self => self->CompoundTag_0));
                    assert(decreases_to!(entries => entries@));
                    assert(decreases_to!(entries@ => entries@[i as int]));
                    assert(decreases_to!(entries@[i as int] => entries@[i as int].1));
                    copies.push((entries[i].0.clone(), entries[i].1.clone()));
                    i = i + 1;
                }
                assert(entries_view(copies@) =~= entries_view(entries@));
                Tag::CompoundTag(copies)
            },
            Tag::TagIntArray(v) => Tag::TagIntArray(v.clone()),
            Tag::TagLongArray(v) => Tag::TagLongArray(v.clone()),
        }
    }
}

impl PartialEq for Tag {
    fn eq(&self, other: &Tag) -> (r: bool) {
        self.same(other)
    }
}

impl vstd::std_specs::cmp::PartialEqSpecImpl for Tag {
    open spec fn obeys_eq_spec() -> bool {
        true
    }

    open spec fn eq_spec(&self, other: &Tag) -> bool {
        same_tag(self@, other@)
    }
}

/// A tag holds its payload: a list its elements and a compound its entries, in their order.
pub proof fn tags_hold_their_payload(tag: Tag)
    ensures
        match tag {
            Tag::TagEnd => tag@ is End,
            Tag::TagByte(v) => tag@ == Nbt::Byte(v),
            Tag::TagShort(v) => tag@ == Nbt::Short(v),
            Tag::TagInt(v) => tag@ == Nbt::Int(v),
            Tag::TagLong(v) => tag@ == Nbt::Long(v),
            Tag::TagFloat(v) => tag@ == Nbt::Float(v),
            Tag::TagDouble(v) => tag@ == Nbt::Double(v),
            Tag::TagByteArray(v) => tag@ == Nbt::ByteArray(v@),
            Tag::TagString(v) => tag@ == Nbt::Text(v@),
            Tag::TagList(list) => tag@ matches Nbt::List(bit, tags) && bit == list.0 && tags.len()
                == list.1@.len() && forall|i: int|
                0 <= i < tags.len() ==> #[trigger] tags[i] == list.1@[i]@,
            Tag::CompoundTag(named) => tag@ matches Nbt::Compound(entries) && entries.len()
                == named@.len() && forall|i: int|
                0 <= i < entries.len() ==> (#[trigger] entries[i]).0 == named@[i].0@ && entries[i].1
                    == named@[i].1@,
            Tag::TagIntArray(v) => tag@ == Nbt::IntArray(v@),
            Tag::TagLongArray(v) => tag@ == Nbt::LongArray(v@),
        },
{
    broadcast use list_view, compound_view;

    match tag {
        Tag::TagList(list) => {
            list_view(list.0, list.1);
        },
        Tag::CompoundTag(named) => {
            compound_view(named);
        },
        _ => {},
    }
}

/// The kinds of tag are numbered from zero on: the end, the byte, the short, the int, the
/// long, the float, the double, the byte array, the text, the list, the compound, the int
/// array and the long array.
pub proof fn kinds_have_their_number(tag: Nbt)
    ensures
        tag is End <==> tag_bit(tag) == 0,
        tag is Byte <==> tag_bit(tag) == 1,
        tag is Short <==> tag_bit(tag) == 2,
        tag is Int <==> tag_bit(tag) == 3,
        tag is Long <==> tag_bit(tag) == 4,
        tag is Float <==> tag_bit(tag) == 5,
        tag is Double <==> tag_bit(tag) == 6,
        tag is ByteArray <==> tag_bit(tag) == 7,
        tag is Text <==> tag_bit(tag) == 8,
        tag is List <==> tag_bit(tag) == 9,
        tag is Compound <==> tag_bit(tag) == 10,
        tag is IntArray <==> tag_bit(tag) == 11,
        tag is LongArray <==> tag_bit(tag) == 12,
{
}

/// Whether no floating point payload that is no number stands anywhere in a tag.
pub open spec fn all_numbers(tag: Nbt) -> bool
    decreases tag,
{
    match tag {
        Nbt::Float(v) => v as int % 0x8000_0000 <= 0x7F80_0000,
        Nbt::Double(v) => v as int % 0x8000_0000_0000_0000 <= 0x7FF0_0000_0000_0000,
        Nbt::List(_, tags) => forall|i: int| 0 <= i < tags.len() ==> all_numbers(#[trigger] tags[i]),
        Nbt::Compound(entries) => forall|i: int|
            0 <= i < entries.len() ==> all_numbers((#[trigger] entries[i]).1),
        _ => true,
    }
}

/// Whether no floating point zero with a sign stands anywhere in a tag.
pub open spec fn no_signed_zero(tag: Nbt) -> bool
    decreases tag,
{
    match tag {
        Nbt::Float(v) => v != 0x8000_0000,
        Nbt::Double(v) => v != 0x8000_0000_0000_0000,
        Nbt::List(_, tags) => forall|i: int|
            0 <= i < tags.len() ==> no_signed_zero(#[trigger] tags[i]),
        Nbt::Compound(entries) => forall|i: int|
            0 <= i < entries.len() ==> no_signed_zero((#[trigger] entries[i]).1),
        _ => true,
    }
}

/// A tag equals itself exactly where every floating point payload in it is a number.
pub proof fn tags_of_numbers_equal_themselves(tag: Nbt)
    ensures
        same_tag(tag, tag) <==> all_numbers(tag),
    decreases tag,
{
    match tag {
        Nbt::List(_, tags) => {
            assert forall|i: int| 0 <= i < tags.len() implies (same_tag(#[trigger] tags[i], tags[i])
                <==> all_numbers(tags[i])) by {
                tags_of_numbers_equal_themselves(tags[i]);
            }
        },
        Nbt::Compound(entries) => {
            assert forall|i: int| 0 <= i < entries.len() implies (same_tag(
                (#[trigger] entries[i]).1,
                entries[i].1,
            ) <==> all_numbers(entries[i].1)) by {
                tags_of_numbers_equal_themselves(entries[i].1);
            }
        },
        _ => {},
    }
}

/// Equal tags are equal the other way round too, and no payload in them is no number.
pub proof fn equal_tags_are_equal_both_ways(a: Nbt, b: Nbt)
    ensures
        same_tag(a, b) ==> same_tag(b, a) && all_numbers(a),
    decreases a,
{
    if same_tag(a, b) {
        match (a, b) {
            (Nbt::List(_, x), Nbt::List(_, y)) => {
                assert forall|i: int| 0 <= i < x.len() implies all_numbers(#[trigger] x[i])
                    && same_tag(y[i], x[i]) by {
                    equal_tags_are_equal_both_ways(x[i], y[i]);
                }
                assert forall|i: int| 0 <= i < y.len() implies same_tag(#[trigger] y[i], x[i]) by {
                    assert(same_tag(x[i], y[i]));
                    assert(all_numbers(x[i]));
                }
            },
            (Nbt::Compound(x), Nbt::Compound(y)) => {
                assert forall|i: int| 0 <= i < x.len() implies all_numbers((#[trigger] x[i]).1)
                    && same_tag(y[i].1, x[i].1) by {
                    equal_tags_are_equal_both_ways(x[i].1, y[i].1);
                }
                assert forall|i: int| 0 <= i < y.len() implies (#[trigger] y[i]).0 == x[i].0
                    && same_tag(y[i].1, x[i].1) by {
                    assert(x[i].0 == y[i].0);
                    assert(all_numbers(x[i].1));
                }
            },
            _ => {},
        }
    }
}

/// Tags that are equal are the same, but for the sign of a zero.
pub proof fn equal_tags_are_the_same(a: Nbt, b: Nbt)
    requires
        no_signed_zero(a),
        no_signed_zero(b),
    ensures
        same_tag(a, b) <==> a == b && all_numbers(a),
    decreases a,
{
    tags_of_numbers_equal_themselves(a);
    if same_tag(a, b) {
        match (a, b) {
            (Nbt::List(_, x), Nbt::List(_, y)) => {
                assert forall|i: int| 0 <= i < x.len() implies x[i] == y[i] by {
                    assert(no_signed_zero(x[i]) && no_signed_zero(y[i]));
                    equal_tags_are_the_same(x[i], y[i]);
                }
                assert(x =~= y);
                equal_tags_are_equal_both_ways(a, b);
            },
            (Nbt::Compound(x), Nbt::Compound(y)) => {
                assert forall|i: int| 0 <= i < x.len() implies x[i] == y[i] by {
                    assert(no_signed_zero(x[i].1) && no_signed_zero(y[i].1));
                    assert(x[i].0 == y[i].0);
                    equal_tags_are_the_same(x[i].1, y[i].1);
                }
                assert(x =~= y);
                equal_tags_are_equal_both_ways(a, b);
            },
            _ => {},
        }
    }
}

/// Floating point payloads are equal where they denote one number. The two zeros do.
pub proof fn numbers_are_equal_as_numbers(a: u32, b: u32, c: u64, d: u64)
    ensures
        same_tag(Nbt::Float(a), Nbt::Float(b)) <==> {
            &&& a as int % 0x8000_0000 <= 0x7F80_0000
            &&& a == b || a as int % 0x8000_0000 == 0 && b as int % 0x8000_0000 == 0
        },
        same_tag(Nbt::Double(c), Nbt::Double(d)) <==> {
            &&& c as int % 0x8000_0000_0000_0000 <= 0x7FF0_0000_0000_0000
            &&& d as int % 0x8000_0000_0000_0000 <= 0x7FF0_0000_0000_0000
            &&& crate::double::signed_units(c) == crate::double::signed_units(d)
        },
{
    let (x, y) = (crate::double::magnitude(c), crate::double::magnitude(d));
    if x <= y {
        crate::double::lemma_units_order(c, d);
    }
    if y <= x {
        crate::double::lemma_units_order(d, c);
    }
    crate::double::lemma_units_order(0, c);
    crate::double::lemma_units_order(0, d);
}

/// Lists of tags and of named tags hold what each of them does, in its place.
pub proof fn tags_are_held_in_order(tags: Seq<Tag>, entries: Seq<(String, Tag)>)
    ensures
        tags_view(tags).len() == tags.len(),
        forall|i: int| 0 <= i < tags.len() ==> #[trigger] tags_view(tags)[i] == tags[i]@,
        entries_view(entries).len() == entries.len(),
        forall|i: int|
            0 <= i < entries.len() ==> (#[trigger] entries_view(entries)[i]).0 == entries[i].0@
                && entries_view(entries)[i].1 == entries[i].1@,
{
}

} // verus!
