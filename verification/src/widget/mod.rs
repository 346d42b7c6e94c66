//! Widget identities and the life cycle hooks of a component.

pub mod component;
pub mod context;
pub mod node;
pub mod unit;
pub mod utils;

use crate::widget::context::{WidgetContext, WidgetMountOrChangeContext, WidgetUnmountContext};
use crate::widget::node::WidgetNode;
use std::collections::hash_map::DefaultHasher;
use std::hash::Hasher;
use vstd::prelude::*;
use vstd::std_specs::cmp::PartialEqSpecImpl;
use vstd::std_specs::hash::*;
use vstd::string::*;
use vstd::utf8::encode_utf8;

verus! {

/// The views of a list of strings, element by element.
pub open spec fn strings_view(strings: Seq<String>) -> Seq<Seq<char>> {
    Seq::new(strings.len(), |i: int| strings[i]@)
}

/// The text of a path: every segment preceded by a slash.
pub open spec fn path_text(path: Seq<Seq<char>>) -> Seq<char>
    decreases path.len(),
{
    if path.len() == 0 {
        Seq::empty()
    } else {
        path_text(path.drop_last()) + seq!['/'] + path.last()
    }
}

/// The pieces of `text` between occurrences of `separator`. There is always at
/// least one piece; an empty text has a single empty piece.
pub open spec fn split_on(text: Seq<char>, separator: char) -> Seq<Seq<char>>
    decreases text.len(),
{
    if text.len() == 0 {
        seq![Seq::empty()]
    } else {
        let before = split_on(text.drop_last(), separator);
        if text.last() == separator {
            before.push(Seq::empty())
        } else {
            before.drop_last().push(before.last().push(text.last()))
        }
    }
}

/// What a [`WidgetId`] stands for: the composed text and the marks that
/// delimit the type tag and the key inside it.
pub struct WidgetIdView {
    pub id: Seq<char>,
    pub type_tag_len: nat,
    pub key_len: nat,
    pub depth: nat,
}

impl WidgetIdView {
    /// The identity of the widget of type `type_tag` found at `path`.
    pub open spec fn compose(type_tag: Seq<char>, path: Seq<Seq<char>>) -> WidgetIdView {
        WidgetIdView {
            id: type_tag + seq![':'] + path_text(path),
            type_tag_len: type_tag.len(),
            key_len: if path.len() > 0 {
                path.last().len()
            } else {
                0
            },
            depth: path.len(),
        }
    }

    /// The marks point inside the text: a colon ends the type tag, and a
    /// non-empty path starts with a slash and ends with the key.
    pub open spec fn wf(self) -> bool {
        if self.id.len() == 0 {
            self.type_tag_len == 0 && self.key_len == 0 && self.depth == 0
        } else {
            &&& self.type_tag_len < self.id.len()
            &&& self.id[self.type_tag_len as int] == ':'
            &&& self.depth == 0 ==> self.id.len() == self.type_tag_len + 1 && self.key_len == 0
            &&& self.depth > 0 ==> self.type_tag_len + 2 + self.key_len <= self.id.len()
                && self.id[self.type_tag_len as int + 1] == '/'
        }
    }

    /// Whether this is a composed identity rather than the empty default.
    pub open spec fn is_valid(self) -> bool {
        self.id.len() > 0
    }

    /// The type tag: the text before the colon.
    pub open spec fn type_tag(self) -> Seq<char> {
        self.id.subrange(0, self.type_tag_len as int)
    }

    /// The path without its leading slash.
    pub open spec fn path(self) -> Seq<char>
        recommends
            self.depth > 0,
    {
        self.id.subrange(self.type_tag_len as int + 2, self.id.len() as int)
    }

    /// The key: the last path segment, empty when the path is empty.
    pub open spec fn key(self) -> Seq<char> {
        self.id.subrange(self.id.len() - self.key_len, self.id.len() as int)
    }

    /// The pieces of the path between slashes.
    pub open spec fn parts(self) -> Seq<Seq<char>>
        recommends
            self.depth > 0,
    {
        split_on(self.path(), '/')
    }
}

/// Appending a segment to a path appends a slash and the segment to its text.
pub proof fn lemma_path_text_push(path: Seq<Seq<char>>, segment: Seq<char>)
    ensures
        path_text(path.push(segment)) == path_text(path) + seq!['/'] + segment,
{
    assert(path.push(segment).drop_last() == path);
}

/// A non-empty path has a text that starts with a slash and ends with the last
/// segment.
pub proof fn lemma_path_text_shape(path: Seq<Seq<char>>)
    requires
        path.len() > 0,
    ensures
        path_text(path).len() >= 1 + path.last().len(),
        path_text(path)[0] == '/',
        path_text(path).subrange(
            path_text(path).len() - path.last().len(),
            path_text(path).len() as int,
        ) == path.last(),
    decreases path.len(),
{
    if path.len() > 1 {
        lemma_path_text_shape(path.drop_last());
    } else {
        assert(path_text(path.drop_last()) == Seq::<char>::empty());
    }
}

/// The accessors of a composed identity give back what it was composed from.
pub proof fn lemma_compose_parts(type_tag: Seq<char>, path: Seq<Seq<char>>)
    ensures
        WidgetIdView::compose(type_tag, path).wf(),
        WidgetIdView::compose(type_tag, path).is_valid(),
        WidgetIdView::compose(type_tag, path).type_tag() == type_tag,
        WidgetIdView::compose(type_tag, path).depth == path.len(),
        path.len() == 0 ==> WidgetIdView::compose(type_tag, path).key() == Seq::<char>::empty(),
        path.len() > 0 ==> WidgetIdView::compose(type_tag, path).key() == path.last(),
        path.len() > 0 ==> seq!['/'] + WidgetIdView::compose(type_tag, path).path() == path_text(
            path,
        ),
{
    let v = WidgetIdView::compose(type_tag, path);
    if path.len() > 0 {
        lemma_path_text_shape(path);
        let t = path_text(path);
    } else {
    }
}

/// Stable identity of a widget: its type tag and the keys on the way from the
/// root to it, composed into `type:/key/key`.
#[derive(Debug, Hash, Eq)]
pub struct WidgetId {
    id: String,
    type_tag_len: usize,
    key_len: usize,
    depth: usize,
}

impl View for WidgetId {
    type V = WidgetIdView;

    closed spec fn view(&self) -> WidgetIdView {
        WidgetIdView {
            id: self.id@,
            type_tag_len: self.type_tag_len as nat,
            key_len: self.key_len as nat,
            depth: self.depth as nat,
        }
    }
}

impl WidgetId {
    #[verifier::type_invariant]
    closed spec fn inv(&self) -> bool {
        self@.wf()
    }

    /// Composes the identity of the widget of type `type_tag` at `path`.
    pub fn new(type_tag: String, path: Vec<String>) -> (id: WidgetId)
        ensures
            id@ == WidgetIdView::compose(type_tag@, strings_view(path@)),
            id@.wf(),
    {
        let ghost segments = strings_view(path@);
        let type_tag_len = type_tag.as_str().unicode_len();
        let depth = path.len();
        let key_len = if depth > 0 {
            path[depth - 1].as_str().unicode_len()
        } else {
            0
        };
        let mut id = type_tag.clone();
        proof {
            reveal_strlit(":");
            reveal_strlit("/");
        }
        id.append(":");
        let mut i: usize = 0;
        while i < depth
            invariant
                i <= depth,
                depth == path.len(),
                segments == strings_view(path@),
                "/"@ == seq!['/'],
                id@ == type_tag@ + seq![':'] + path_text(segments.subrange(0, i as int)),
            decreases depth - i,
        {
            id.append("/");
            id.append(path[i].as_str());
            proof {
                lemma_path_text_push(segments.subrange(0, i as int), segments[i as int]);
                assert(segments.subrange(0, i as int).push(segments[i as int])
                    == segments.subrange(0, i + 1));
            }
            i += 1;
        }
        proof {
            assert(segments.subrange(0, depth as int) == segments);
            lemma_compose_parts(type_tag@, segments);
        }
        WidgetId { id, type_tag_len, key_len, depth }
    }

    /// Whether this is a composed identity rather than the empty default.
    pub fn is_valid(&self) -> (valid: bool)
        ensures
            valid == self@.is_valid(),
    {
        !self.id.as_str().is_empty()
    }

    /// The number of path segments.
    pub fn depth(&self) -> (depth: usize)
        ensures
            depth == self@.depth,
    {
        self.depth
    }

    /// The type tag: the text before the colon.
    pub fn type_tag(&self) -> (name: &str)
        ensures
            name@ == self@.type_tag(),
    {
        proof {
            use_type_invariant(self);
        }
        self.id.as_str().substring_char(0, self.type_tag_len)
    }

    /// The path: the segments joined by slashes, without the leading slash.
    pub fn path(&self) -> (path: &str)
        requires
            self@.depth > 0,
        ensures
            path@ == self@.path(),
    {
        proof {
            use_type_invariant(self);
        }
        let text = self.id.as_str();
        let len = text.unicode_len();
        text.substring_char(self.type_tag_len + 2, len)
    }

    /// The key: the last path segment, empty when the path is empty.
    pub fn key(&self) -> (key: &str)
        ensures
            key@ == self@.key(),
    {
        proof {
            use_type_invariant(self);
        }
        let text = self.id.as_str();
        let len = text.unicode_len();
        text.substring_char(len - self.key_len, len)
    }

    /// The pieces of the path between slashes, in order.
    pub fn parts(&self) -> (parts: Vec<String>)
        requires
            self@.depth > 0,
        ensures
            strings_view(parts@) == self@.parts(),
    {
        split_text(self.path(), '/')
    }

    /// The identity that a composed text stands for: the type tag is the text
    /// before the first colon, and the path is made of the pieces between
    /// slashes of what follows the colon and the slash behind it. A text
    /// without a colon stands for no identity. The text has to go on for two
    /// characters from the colon at least.
    pub fn from_str(text: &str) -> (parsed: Result<WidgetId, ()>)
        requires
            first_index_of(text@, ':', 0) matches Some(index) ==> index + 2 <= text@.len(),
        ensures
            match parsed {
                Ok(id) => first_index_of(text@, ':', 0) matches Some(index) && id@
                    == WidgetIdView::compose(
                    text@.subrange(0, index),
                    split_on(text@.subrange(index + 2, text@.len() as int), '/'),
                ),
                Err(_) => first_index_of(text@, ':', 0).is_none(),
            },
    {
        let len = text.unicode_len();
        let mut i: usize = 0;
        while i < len
            invariant
                i <= len,
                len == text@.len(),
                first_index_of(text@, ':', 0) == first_index_of(text@, ':', i as int),
                first_index_of(text@, ':', 0) matches Some(index) ==> index + 2 <= text@.len(),
            decreases len - i,
        {
            if text.get_char(i) == ':' {
                let type_tag = text.substring_char(0, i).to_owned();
                let rest = text.substring_char(i + 2, len);
                let path = split_text(rest, '/');
                return Ok(WidgetId::new(type_tag, path));
            }
            i += 1;
        }
        Err(())
    }

    /// A hash of the composed text.
    pub fn hashed_value(&self) -> (hash: u64)
        ensures
            hash == DefaultHasher::spec_finish(seq![encode_utf8(self@.id)]),
    {
        let mut hasher = DefaultHasher::new();
        hasher.write(self.id.as_str().as_bytes());
        hasher.finish()
    }

    /// The composed text, `type:/key/key`.
    pub fn to_string(&self) -> (text: String)
        ensures
            text@ == self@.id,
    {
        self.id.clone()
    }

    /// The composed text, borrowed.
    pub fn as_str(&self) -> (text: &str)
        ensures
            text@ == self@.id,
    {
        self.id.as_str()
    }
}

/// A place where the identity of a widget is written once the widget has been
/// given one.
#[derive(Debug)]
pub struct WidgetRef {
    id: Option<WidgetId>,
}

impl View for WidgetRef {
    type V = Option<WidgetIdView>;

    closed spec fn view(&self) -> Option<WidgetIdView> {
        match self.id {
            Some(id) => Some(id@),
            None => None,
        }
    }
}

impl WidgetRef {
    /// An empty place.
    pub fn new() -> (place: WidgetRef)
        ensures
            place@.is_none(),
    {
        WidgetRef { id: None }
    }

    /// Writes `id` into the place.
    pub fn write(&mut self, id: WidgetId)
        ensures
            final(self)@ == Some(id@),
    {
        self.id = Some(id);
    }

    /// The identity written last, if any.
    pub fn read(&self) -> (id: Option<WidgetId>)
        ensures
            match id {
                Some(id) => self@ == Some(id@),
                None => self@.is_none(),
            },
    {
        match &self.id {
            Some(id) => Some(id.clone()),
            None => None,
        }
    }

    /// Whether an identity has been written.
    pub fn is_written(&self) -> (written: bool)
        ensures
            written == self@.is_some(),
    {
        self.id.is_some()
    }
}

impl Default for WidgetRef {
    fn default() -> (place: WidgetRef)
        ensures
            place@.is_none(),
    {
        WidgetRef::new()
    }
}

impl Clone for WidgetRef {
    fn clone(&self) -> (place: WidgetRef)
        ensures
            place@ == self@,
    {
        WidgetRef { id: self.read() }
    }
}

impl Default for WidgetId {
    /// The empty identity, which no widget has.
    fn default() -> (id: WidgetId)
        ensures
            id@ == (WidgetIdView { id: Seq::empty(), type_tag_len: 0, key_len: 0, depth: 0 }),
            !id@.is_valid(),
    {
        WidgetId { id: String::new(), type_tag_len: 0, key_len: 0, depth: 0 }
    }
}

impl Clone for WidgetId {
    fn clone(&self) -> (id: WidgetId)
        ensures
            id@ == self@,
    {
        proof {
            use_type_invariant(self);
        }
        WidgetId {
            id: self.id.clone(),
            type_tag_len: self.type_tag_len,
            key_len: self.key_len,
            depth: self.depth,
        }
    }
}

impl PartialEq for WidgetId {
    fn eq(&self, other: &WidgetId) -> (equal: bool) {
        self.id == other.id && self.type_tag_len == other.type_tag_len && self.key_len
            == other.key_len && self.depth == other.depth
    }
}

impl PartialEqSpecImpl for WidgetId {
    open spec fn obeys_eq_spec() -> bool {
        true
    }

    open spec fn eq_spec(&self, other: &WidgetId) -> bool {
        self@ == other@
    }
}

/// What expands composite widgets and runs their life cycle hooks. A value of
/// the implementing type stands for one processor or one hook; `C` is what the
/// host hands through a pass to all of them.
pub trait WidgetProcessor<C>: Sized {
    /// Expands the widget of `context` into the node that is shown for it.
    fn process(&self, context: &mut WidgetContext<Self>, process_context: &mut C) -> WidgetNode<
        Self,
    >;

    /// Runs this hook for a widget that has just been mounted or has changed.
    fn mount_or_change(&self, context: &mut WidgetMountOrChangeContext, process_context: &mut C);

    /// Runs this hook for a widget that has left the tree.
    fn unmount(&self, context: &mut WidgetUnmountContext, process_context: &mut C);
}

/// The hooks that a processor registers for its widget.
#[derive(Debug)]
pub struct WidgetLifeCycle<P> {
    mount: Vec<P>,
    change: Vec<P>,
    unmount: Vec<P>,
}

impl<P> WidgetLifeCycle<P> {
    /// The hooks to run when the widget is mounted, in the order registered.
    pub closed spec fn mounts(&self) -> Seq<P> {
        self.mount@
    }

    /// The hooks to run when the widget has changed, in the order registered.
    pub closed spec fn changes(&self) -> Seq<P> {
        self.change@
    }

    /// The hooks to run when the widget has left the tree, in the order
    /// registered.
    pub closed spec fn unmounts(&self) -> Seq<P> {
        self.unmount@
    }

    /// No hooks.
    pub fn new() -> (life_cycle: WidgetLifeCycle<P>)
        ensures
            life_cycle.mounts().len() == 0,
            life_cycle.changes().len() == 0,
            life_cycle.unmounts().len() == 0,
    {
        WidgetLifeCycle { mount: Vec::new(), change: Vec::new(), unmount: Vec::new() }
    }

    /// Registers `f` to run when the widget is mounted.
    pub fn mount(&mut self, f: P)
        ensures
            final(self).mounts() == old(self).mounts().push(f),
            final(self).changes() == old(self).changes(),
            final(self).unmounts() == old(self).unmounts(),
    {
        self.mount.push(f);
    }

    /// Registers `f` to run when the widget has changed.
    pub fn change(&mut self, f: P)
        ensures
            final(self).mounts() == old(self).mounts(),
            final(self).changes() == old(self).changes().push(f),
            final(self).unmounts() == old(self).unmounts(),
    {
        self.change.push(f);
    }

    /// Registers `f` to run when the widget has left the tree.
    pub fn unmount(&mut self, f: P)
        ensures
            final(self).mounts() == old(self).mounts(),
            final(self).changes() == old(self).changes(),
            final(self).unmounts() == old(self).unmounts().push(f),
    {
        self.unmount.push(f);
    }

    /// The registered hooks: those for mounting, those for changes and those
    /// for leaving the tree.
    pub fn unwrap(self) -> (hooks: (Vec<P>, Vec<P>, Vec<P>))
        ensures
            hooks.0@ == self.mounts(),
            hooks.1@ == self.changes(),
            hooks.2@ == self.unmounts(),
    {
        let WidgetLifeCycle { mount, change, unmount } = self;
        (mount, change, unmount)
    }
}

impl<P> Default for WidgetLifeCycle<P> {
    fn default() -> (life_cycle: WidgetLifeCycle<P>)
        ensures
            life_cycle.mounts().len() == 0,
            life_cycle.changes().len() == 0,
            life_cycle.unmounts().len() == 0,
    {
        WidgetLifeCycle::new()
    }
}

/// The index of the first occurrence of `wanted` in `text`, from `from` on.
pub open spec fn first_index_of(text: Seq<char>, wanted: char, from: int) -> Option<int>
    decreases text.len() - from,
{
    if from < 0 || from >= text.len() {
        None
    } else if text[from] == wanted {
        Some(from)
    } else {
        first_index_of(text, wanted, from + 1)
    }
}

/// The pieces of `text` between occurrences of `separator`, in order.
pub fn split_text(text: &str, separator: char) -> (pieces: Vec<String>)
    ensures
        strings_view(pieces@) == split_on(text@, separator),
{
    let len = text.unicode_len();
    let mut pieces: Vec<String> = Vec::new();
    let mut start: usize = 0;
    let mut i: usize = 0;
    assert(text@.subrange(0, 0) == Seq::<char>::empty());
    while i < len
        invariant
            start <= i <= len,
            len == text@.len(),
            strings_view(pieces@).push(text@.subrange(start as int, i as int)) == split_on(
                text@.subrange(0, i as int),
                separator,
            ),
        decreases len - i,
    {
        let c = text.get_char(i);
        let ghost before = split_on(text@.subrange(0, i as int), separator);
        proof {
            assert(text@.subrange(0, i + 1).drop_last() == text@.subrange(0, i as int));
        }
        if c == separator {
            let piece = text.substring_char(start, i);
            pieces.push(piece.to_owned());
            start = i + 1;
            proof {
                assert(text@.subrange(start as int, i + 1) == Seq::<char>::empty());
            }
        } else {
            proof {
                assert(text@.subrange(start as int, i + 1) == before.last().push(c));
            }
        }
        i += 1;
    }
    let piece = text.substring_char(start, len);
    pieces.push(piece.to_owned());
    proof {
        assert(text@.subrange(0, len as int) == text@);
    }
    pieces
}

/// A text without the separator is one piece.
pub proof fn lemma_split_on_whole(text: Seq<char>, separator: char)
    requires
        !text.contains(separator),
    ensures
        split_on(text, separator) == seq![text],
    decreases text.len(),
{
    if text.len() > 0 {
        lemma_split_on_whole(text.drop_last(), separator);
        assert(text.drop_last().push(text.last()) == text);
    } else {
        assert(text == Seq::<char>::empty());
    }
}

/// A separator and a piece without separators behind a text add one piece.
pub proof fn lemma_split_on_append(head: Seq<char>, piece: Seq<char>, separator: char)
    requires
        !piece.contains(separator),
    ensures
        split_on(head + seq![separator] + piece, separator) == split_on(head, separator).push(
            piece,
        ),
    decreases piece.len(),
{
    let text = head + seq![separator] + piece;
    if piece.len() == 0 {
        assert(text.drop_last() == head);
        assert(piece == Seq::<char>::empty());
    } else {
        let shorter = piece.drop_last();
        lemma_split_on_append(head, shorter, separator);
        assert(text.drop_last() == head + seq![separator] + shorter);
        let before = split_on(head, separator).push(shorter);
        assert(shorter.push(piece.last()) == piece);
    }
}

/// The pieces of the text of a path are its segments, if no segment holds a
/// slash.
pub proof fn lemma_split_path(path: Seq<Seq<char>>)
    requires
        path.len() > 0,
        forall|i: int| 0 <= i < path.len() ==> !(#[trigger] path[i]).contains('/'),
    ensures
        path_text(path).len() > 0,
        split_on(path_text(path).drop_first(), '/') == path,
    decreases path.len(),
{
    lemma_path_text_shape(path);
    let text = path_text(path);
    if path.len() == 1 {
        assert(path_text(path.drop_last()) == Seq::<char>::empty());
        lemma_split_on_whole(path.last(), '/');
    } else {
        let front = path.drop_last();
        lemma_split_path(front);
        lemma_path_text_shape(front);
        assert(text.drop_first() == path_text(front).drop_first() + seq!['/'] + path.last());
        lemma_split_on_append(path_text(front).drop_first(), path.last(), '/');
    }
}

/// The first colon of a text that starts with a part without colons and a
/// colon is that colon.
pub proof fn lemma_first_colon(head: Seq<char>, rest: Seq<char>, from: int)
    requires
        !head.contains(':'),
        0 <= from <= head.len(),
    ensures
        first_index_of(head + seq![':'] + rest, ':', from) == Some(head.len() as int),
    decreases head.len() - from,
{
    let text = head + seq![':'] + rest;
    if from < head.len() {
        lemma_first_colon(head, rest, from + 1);
    } else {
    }
}

/// Reading a composed identity back gives the identity, if the type tag
/// holds no colon, the path has a segment, and no segment holds a slash.
pub proof fn lemma_from_str_inverts_compose(type_tag: Seq<char>, path: Seq<Seq<char>>)
    requires
        !type_tag.contains(':'),
        path.len() > 0,
        forall|i: int| 0 <= i < path.len() ==> !(#[trigger] path[i]).contains('/'),
    ensures
        first_index_of(WidgetIdView::compose(type_tag, path).id, ':', 0) == Some(
            type_tag.len() as int,
        ),
        type_tag.len() + 2 <= WidgetIdView::compose(type_tag, path).id.len(),
        WidgetIdView::compose(
            WidgetIdView::compose(type_tag, path).id.subrange(0, type_tag.len() as int),
            split_on(
                WidgetIdView::compose(type_tag, path).id.subrange(
                    type_tag.len() as int + 2,
                    WidgetIdView::compose(type_tag, path).id.len() as int,
                ),
                '/',
            ),
        ) == WidgetIdView::compose(type_tag, path),
{
    let text = WidgetIdView::compose(type_tag, path).id;
    lemma_first_colon(type_tag, path_text(path), 0);
    lemma_split_path(path);
    lemma_path_text_shape(path);
    assert(text.subrange(0, type_tag.len() as int) == type_tag);
    assert(text.subrange(type_tag.len() as int + 2, text.len() as int) == path_text(
        path,
    ).drop_first());
}

} // verus!
