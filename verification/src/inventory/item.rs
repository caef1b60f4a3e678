//! Builds stacks of items.
use crate::nbt::{compound_view, entries_view, list_view, tags_view, Nbt, Tag};
use crate::protocol::{Chat, Item, ItemStack};
use vstd::prelude::*;

verus! {

/// A stack of items that is being put together.
pub struct ItemBuilder {
    item_type: i32,
    data: i32,
    count: u8,
    display_name: Option<Chat>,
    lore: Option<Vec<Chat>>,
    extra_nbt: Vec<(String, Tag)>,
}

/// What has been put together so far.
#[verifier::ext_equal]
pub struct Draft {
    pub item_type: i32,
    pub data: i32,
    pub count: u8,
    pub display_name: Option<Seq<char>>,
    pub lore: Option<Seq<Seq<char>>>,
    pub extra_nbt: Seq<(Seq<char>, Nbt)>,
}

/// What a list of chat components holds.
pub open spec fn chats_view(chats: Seq<Chat>) -> Seq<Seq<char>> {
    Seq::new(chats.len(), |i: int| chats[i]@)
}

impl View for ItemBuilder {
    type V = Draft;

    closed spec fn view(&self) -> Draft {
        Draft {
            item_type: self.item_type,
            data: self.data,
            count: self.count,
            display_name: match self.display_name {
                Some(name) => Some(name@),
                None => None,
            },
            lore: match self.lore {
                Some(lore) => Some(chats_view(lore@)),
                None => None,
            },
            extra_nbt: entries_view(self.extra_nbt@),
        }
    }
}

impl Draft {
    /// The lore, where no lore is the same as no lines.
    pub open spec fn lines(&self) -> Seq<Seq<char>> {
        match self.lore {
            Some(lore) => lore,
            None => Seq::empty(),
        }
    }

    /// The entries of the tag that says how the stack is displayed.
    pub open spec fn display(&self) -> Seq<(Seq<char>, Nbt)> {
        let name = match self.display_name {
            Some(name) => seq![("Name"@, Nbt::Text(name))],
            None => Seq::empty(),
        };
        match self.lore {
            Some(lore) => name.push(("Lore"@, Nbt::List(8, line_tags(lore)))),
            None => name,
        }
    }

    /// The entries of the tag of the stack.
    pub open spec fn entries(&self) -> Seq<(Seq<char>, Nbt)> {
        let display = if self.display_name is Some || self.lore is Some {
            seq![("display"@, Nbt::Compound(self.display()))]
        } else {
            Seq::empty()
        };
        let damage = if self.data != 0 {
            seq![("Damage"@, Nbt::Int(self.data))]
        } else {
            Seq::empty()
        };
        display + damage + self.extra_nbt
    }

    /// The stack: it has a tag where there is anything to say in it.
    pub open spec fn stack(&self) -> Item {
        Item {
            item_id: self.item_type,
            count: self.count,
            tag: if self.entries().len() == 0 {
                None
            } else {
                Some(Nbt::Compound(self.entries()))
            },
        }
    }
}

/// What a call of the builder changes.
pub enum Edit {
    DisplayName { name: Seq<char> },
    Lore { lines: Seq<Seq<char>> },
    AddLore { line: Seq<char> },
    AddAllLore { lines: Seq<Seq<char>> },
    SetLore { number: nat, line: Seq<char> },
    AddAllNbt { entries: Seq<(Seq<char>, Nbt)> },
    AddNbt { key: Seq<char>, value: Nbt },
}

impl Edit {
    /// Whether the change leaves something to say in the tag of the stack where there was
    /// nothing. A line can be replaced only where there is one.
    pub open spec fn says_something(&self) -> bool {
        match *self {
            Edit::SetLore { .. } => false,
            Edit::AddAllNbt { entries } => entries.len() > 0,
            _ => true,
        }
    }
}

impl Draft {
    /// One item of the given kind, with nothing said of it.
    pub open spec fn one(item_id: i32) -> Draft {
        Draft {
            item_type: item_id,
            data: 0,
            count: 1,
            display_name: None,
            lore: None,
            extra_nbt: Seq::empty(),
        }
    }

    /// Whether a change is possible: a line that is replaced has to be there.
    pub open spec fn permits(&self, edit: Edit) -> bool {
        edit matches Edit::SetLore { number, .. } ==> number < self.lines().len()
    }

    /// What a change makes of a draft.
    pub open spec fn edited(&self, edit: Edit) -> Draft {
        match edit {
            Edit::DisplayName { name } => Draft { display_name: Some(name), ..*self },
            Edit::Lore { lines } => Draft { lore: Some(lines), ..*self },
            Edit::AddLore { line } => Draft { lore: Some(self.lines().push(line)), ..*self },
            Edit::AddAllLore { lines } => Draft { lore: Some(self.lines() + lines), ..*self },
            Edit::SetLore { number, line } => Draft {
                lore: Some(self.lines().update(number as int, line)),
                ..*self
            },
            Edit::AddAllNbt { entries } => Draft {
                extra_nbt: self.extra_nbt + entries,
                ..*self
            },
            Edit::AddNbt { key, value } => Draft {
                extra_nbt: self.extra_nbt.push((key, value)),
                ..*self
            },
        }
    }

    /// What several changes make of a draft, one after the other.
    pub open spec fn edited_by(&self, edits: Seq<Edit>) -> Draft
        decreases edits.len(),
    {
        if edits.len() == 0 {
            *self
        } else {
            self.edited_by(edits.drop_last()).edited(edits.last())
        }
    }

    /// Whether several changes are possible, one after the other.
    pub open spec fn permits_all(&self, edits: Seq<Edit>) -> bool
        decreases edits.len(),
    {
        edits.len() > 0 ==> self.permits_all(edits.drop_last()) && self.edited_by(
            edits.drop_last(),
        ).permits(edits.last())
    }
}

/// Whatever the builder is told, the stack is one undamaged item of the kind that it was made
/// for. It has no tag exactly where nothing was said: no name and no lore, not even an empty
/// one, and no entry.
pub proof fn stacks_are_of_one_item(item_id: i32, edits: Seq<Edit>)
    requires
        Draft::one(item_id).permits_all(edits),
    ensures
        ({
            let draft = Draft::one(item_id).edited_by(edits);
            &&& draft.stack().item_id == item_id
            &&& draft.stack().count == 1
            &&& draft.data == 0
            &&& draft.stack().tag is None <==> forall|i: int|
                0 <= i < edits.len() ==> !(#[trigger] edits[i]).says_something()
        }),
    decreases edits.len(),
{
    let draft = Draft::one(item_id).edited_by(edits);
    if edits.len() > 0 {
        let rest = edits.drop_last();
        let before = Draft::one(item_id).edited_by(rest);
        stacks_are_of_one_item(item_id, rest);
        assert(before.stack().tag is None ==> before.lines().len() == 0);
        if forall|i: int| 0 <= i < edits.len() ==> !(#[trigger] edits[i]).says_something() {
            assert forall|i: int| 0 <= i < rest.len() implies !(
            #[trigger] rest[i]).says_something() by {
                assert(rest[i] == edits[i]);
            }
            assert(!edits[edits.len() - 1].says_something());
            assert(draft.entries() =~= before.entries());
        } else if forall|i: int| 0 <= i < rest.len() ==> !(#[trigger] rest[i]).says_something() {
            let i = choose|i: int|
                0 <= i < edits.len() && (#[trigger] edits[i]).says_something();
            if i < rest.len() {
                assert(rest[i] == edits[i]);
            }
        }
        assert(draft.display_name is Some || draft.lore is Some ==> draft.entries()[0].0
            == "display"@);
    }
}

/// The tags that hold the given lines.
pub open spec fn line_tags(lore: Seq<Seq<char>>) -> Seq<Nbt> {
    Seq::new(lore.len(), |i: int| Nbt::Text(lore[i]))
}

fn lore_tags(lore: Vec<Chat>) -> (tags: Vec<Tag>)
    ensures
        tags_view(tags@) == line_tags(chats_view(lore@)),
{
    let mut tags: Vec<Tag> = Vec::new();
    let mut i: usize = 0;
    while i < lore.len()
        invariant
            i <= lore.len(),
            tags@.len() == i,
            forall|k: int| 0 <= k < i ==> (#[trigger] tags@[k])@ == Nbt::Text(lore@[k]@),
        decreases lore.len() - i,
    {
        tags.push(Tag::string(lore[i].json.clone()));
        i = i + 1;
    }
    assert(tags_view(tags@) =~= line_tags(chats_view(lore@)));
    tags
}

fn push_entry(entries: &mut Vec<(String, Tag)>, key: String, tag: Tag)
    ensures
        entries_view(final(entries)@) == entries_view(old(entries)@).push((key@, tag@)),
{
    entries.push((key, tag));
    assert(entries_view(entries@) =~= entries_view(old(entries)@).push((key@, tag@)));
}

impl ItemBuilder {
    /// One item of the given kind, with nothing said of it.
    pub fn new(item_id: i32) -> (builder: Self)
        ensures
            builder@ == Draft::one(item_id),
    {
        let builder: ItemBuilder = Self {
            item_type: item_id,
            data: 0,
            count: 1,
            display_name: None,
            lore: None,
            extra_nbt: Vec::new(),
        };
        assert(builder@.extra_nbt =~= Seq::empty());
        builder
    }

    /// Sets the name that is displayed.
    pub fn display_name(self, chat: Chat) -> (builder: Self)
        ensures
            builder@ == self@.edited(Edit::DisplayName { name: chat@ }),
    {
        let mut builder: ItemBuilder = self;
        builder.display_name = Some(chat);
        builder
    }

    /// Sets the lore.
    pub fn lore(self, lore: Vec<Chat>) -> (builder: Self)
        ensures
            builder@ == self@.edited(Edit::Lore { lines: chats_view(lore@) }),
    {
        let mut builder: ItemBuilder = self;
        builder.lore = Some(lore);
        builder
    }

    /// Adds a line to the lore.
    pub fn add_lore(self, lore_line: Chat) -> (builder: Self)
        ensures
            builder@ == self@.edited(Edit::AddLore { line: lore_line@ }),
    {
        let mut builder: ItemBuilder = self;
        let mut lines: Vec<Chat> = match builder.lore {
            Some(lore) => lore,
            None => Vec::new(),
        };
        assert(chats_view(lines@) =~= self@.lines());
        lines.push(lore_line);
        assert(chats_view(lines@) =~= self@.lines().push(lore_line@));
        builder.lore = Some(lines);
        builder
    }

    /// Adds lines to the lore.
    pub fn add_all_lore(self, in_lore: Vec<Chat>) -> (builder: Self)
        ensures
            builder@ == self@.edited(Edit::AddAllLore { lines: chats_view(in_lore@) }),
    {
        let mut builder: ItemBuilder = self;
        let mut lines: Vec<Chat> = match builder.lore {
            Some(lore) => lore,
            None => Vec::new(),
        };
        let ghost added = chats_view(in_lore@);
        assert(chats_view(lines@) =~= self@.lines());
        let mut in_lore: Vec<Chat> = in_lore;
        lines.append(&mut in_lore);
        assert(chats_view(lines@) =~= self@.lines() + added);
        builder.lore = Some(lines);
        builder
    }

    /// Replaces a line of the lore.
    pub fn set_lore(self, line: usize, lore_line: Chat) -> (builder: Self)
        requires
            self@.permits(Edit::SetLore { number: line as nat, line: lore_line@ }),
        ensures
            builder@ == self@.edited(Edit::SetLore { number: line as nat, line: lore_line@ }),
    {
        let mut builder: ItemBuilder = self;
        let mut lines: Vec<Chat> = match builder.lore {
            Some(lore) => lore,
            None => Vec::new(),
        };
        assert(chats_view(lines@) =~= self@.lines());
        lines.set(line, lore_line);
        assert(chats_view(lines@) =~= self@.lines().update(line as int, lore_line@));
        builder.lore = Some(lines);
        builder
    }

    /// Adds entries to the tag.
    pub fn add_all_nbt(self, nbt: Vec<(String, Tag)>) -> (builder: Self)
        ensures
            builder@ == self@.edited(Edit::AddAllNbt { entries: entries_view(nbt@) }),
    {
        let mut builder: ItemBuilder = self;
        let ghost added = entries_view(nbt@);
        let mut nbt: Vec<(String, Tag)> = nbt;
        builder.extra_nbt.append(&mut nbt);
        assert(builder@.extra_nbt =~= self@.extra_nbt + added);
        builder
    }

    /// Adds an entry to the tag.
    pub fn add_nbt(self, key: String, value: Tag) -> (builder: Self)
        ensures
            builder@ == self@.edited(Edit::AddNbt { key: key@, value: value@ }),
    {
        let mut builder: ItemBuilder = self;
        push_entry(&mut builder.extra_nbt, key, value);
        builder
    }

    /// The stack.
    pub fn build(self) -> (stack: ItemStack)
        ensures
            stack@ == self@.stack(),
    {
        broadcast use {list_view, compound_view};

        let ghost draft = self@;
        let mut tag_data: Vec<(String, Tag)> = Vec::new();
        assert(entries_view(tag_data@) =~= Seq::empty());
        if self.display_name.is_some() || self.lore.is_some() {
            let mut display_tag_data: Vec<(String, Tag)> = Vec::new();
            assert(entries_view(display_tag_data@) =~= Seq::empty());
            if let Some(display_name) = self.display_name {
                let name: Tag = Tag::string(display_name.json);
                push_entry(&mut display_tag_data, "Name".to_string(), name);
            }
            if let Some(lore) = self.lore {
                let bit: u8 = Tag::string("".to_string()).get_tag_bit();
                let tags: Vec<Tag> = lore_tags(lore);
                push_entry(&mut display_tag_data, "Lore".to_string(), Tag::TagList((bit, tags)));
            }
            assert(entries_view(display_tag_data@) =~= draft.display());
            push_entry(&mut tag_data, "display".to_string(), Tag::compound_tag(display_tag_data));
        }
        if self.data != 0 {
            push_entry(&mut tag_data, "Damage".to_string(), Tag::TagInt(self.data));
        }
        let ghost stated = entries_view(tag_data@);
        let ghost extra = entries_view(self.extra_nbt@);
        let mut extra_nbt: Vec<(String, Tag)> = self.extra_nbt;
        tag_data.append(&mut extra_nbt);
        assert(entries_view(tag_data@) =~= stated + extra);
        assert(stated + extra =~= draft.entries());
        if tag_data.is_empty() {
            ItemStack { item_id: self.item_type, count: self.count, tag: None }
        } else {
            ItemStack {
                item_id: self.item_type,
                count: self.count,
                tag: Some(Tag::compound_tag(tag_data)),
            }
        }
    }
}

/// The entries of a compound tag.
pub open spec fn parts(tag: Nbt) -> Seq<(Seq<char>, Nbt)> {
    match tag {
        Nbt::Compound(entries) => entries,
        _ => Seq::empty(),
    }
}

/// A stack is of the kind and the count that were put together, and everything that was said
/// stands in its tag and nothing else: the name as a text and the lore as a list of texts,
/// line by line, under what is displayed, then a damage other than none, then the further
/// entries in their order.
pub proof fn stacks_say_what_was_said(draft: Draft)
    ensures
        ({
            let stack = draft.stack();
            let said = parts(stack.tag->0);
            let shown = parts(said[0].1);
            let displayed = draft.display_name is Some || draft.lore is Some;
            let first: int = if displayed {
                1
            } else {
                0
            };
            let second: int = if draft.data != 0 {
                1
            } else {
                0
            };
            let total = first + second + draft.extra_nbt.len();
            &&& stack.item_id == draft.item_type
            &&& stack.count == draft.count
            &&& stack.tag is None <==> total == 0
            &&& total > 0 ==> {
                &&& stack.tag->0 is Compound
                &&& said.len() == total
                &&& forall|i: int|
                    0 <= i < draft.extra_nbt.len() ==> said[first + second + i]
                        == #[trigger] draft.extra_nbt[i]
            }
            &&& draft.data != 0 ==> said[first] == ("Damage"@, Nbt::Int(draft.data))
            &&& displayed ==> {
                &&& said[0].0 == "display"@
                &&& said[0].1 is Compound
                &&& shown.len() == (if draft.display_name is Some && draft.lore is Some {
                    2int
                } else {
                    1
                })
            }
            &&& draft.display_name matches Some(name) ==> shown[0] == ("Name"@, Nbt::Text(name))
            &&& draft.lore matches Some(lore) ==> {
                &&& shown.last().0 == "Lore"@
                &&& shown.last().1 matches Nbt::List(bit, lines) && {
                    &&& bit == 8
                    &&& lines.len() == lore.len()
                    &&& forall|i: int|
                        0 <= i < lore.len() ==> #[trigger] lines[i] == Nbt::Text(lore[i])
                }
            }
        }),
{
}

/// Each change changes what it speaks of and nothing else. Lines that are added come last, one
/// that is replaced leaves the others, and entries come in the order in which they are added.
pub proof fn edits_change_what_they_name(draft: Draft, edit: Edit)
    requires
        draft.permits(edit),
    ensures
        ({
            let after = draft.edited(edit);
            let old_lines = match draft.lore {
                Some(lore) => lore,
                None => Seq::empty(),
            };
            let n = old_lines.len() as int;
            let m = draft.extra_nbt.len() as int;
            &&& after.item_type == draft.item_type
            &&& after.data == draft.data
            &&& after.count == draft.count
            &&& !(edit is DisplayName) ==> after.display_name == draft.display_name
            &&& edit is DisplayName || edit is AddAllNbt || edit is AddNbt ==> after.lore
                == draft.lore
            &&& !(edit is AddAllNbt || edit is AddNbt) ==> after.extra_nbt == draft.extra_nbt
            &&& match edit {
                Edit::DisplayName { name } => after.display_name == Some(name),
                Edit::Lore { lines } => after.lore == Some(lines),
                Edit::AddLore { line } => after.lore matches Some(lore) && {
                    &&& lore.len() == n + 1
                    &&& lore[n] == line
                    &&& forall|i: int| 0 <= i < n ==> #[trigger] lore[i] == old_lines[i]
                },
                Edit::AddAllLore { lines } => after.lore matches Some(lore) && {
                    &&& lore.len() == n + lines.len()
                    &&& forall|i: int| 0 <= i < n ==> #[trigger] lore[i] == old_lines[i]
                    &&& forall|i: int| n <= i < lore.len() ==> #[trigger] lore[i] == lines[i - n]
                },
                Edit::SetLore { number, line } => after.lore matches Some(lore) && {
                    &&& number < n
                    &&& lore.len() == n
                    &&& lore[number as int] == line
                    &&& forall|i: int|
                        0 <= i < n && i != number ==> #[trigger] lore[i] == old_lines[i]
                },
                Edit::AddAllNbt { entries } => {
                    &&& after.extra_nbt.len() == m + entries.len()
                    &&& forall|i: int|
                        0 <= i < m ==> #[trigger] after.extra_nbt[i] == draft.extra_nbt[i]
                    &&& forall|i: int|
                        m <= i < after.extra_nbt.len() ==> #[trigger] after.extra_nbt[i]
                            == entries[i - m]
                },
                Edit::AddNbt { key, value } => {
                    &&& after.extra_nbt.len() == m + 1
                    &&& after.extra_nbt[m] == (key, value)
                    &&& forall|i: int|
                        0 <= i < m ==> #[trigger] after.extra_nbt[i] == draft.extra_nbt[i]
                },
            }
        }),
{
}

/// A line can be replaced exactly where there is one with that number; anything else can
/// always be changed.
pub proof fn lines_that_are_there_can_be_replaced(draft: Draft, edit: Edit)
    ensures
        draft.permits(edit) <==> match edit {
            Edit::SetLore { number, .. } => draft.lore matches Some(lore) && number < lore.len(),
            _ => true,
        },
{
}

/// A draft starts as one undamaged item of its kind, of which nothing is said.
pub proof fn drafts_start_as_one_item(item_id: i32)
    ensures
        Draft::one(item_id).item_type == item_id,
        Draft::one(item_id).count == 1,
        Draft::one(item_id).data == 0,
        Draft::one(item_id).display_name is None,
        Draft::one(item_id).lore is None,
        Draft::one(item_id).extra_nbt.len() == 0,
{
}

/// Lines are held in the order in which they are given.
pub proof fn lines_are_held_in_order(chats: Seq<Chat>, i: int)
    requires
        0 <= i < chats.len(),
    ensures
        chats_view(chats).len() == chats.len(),
        chats_view(chats)[i] == chats[i].json@,
{
}

} // verus!
