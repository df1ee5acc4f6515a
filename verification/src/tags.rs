//! Tags and free-form context of photos.

use vstd::prelude::*;
use crate::context::keys_occur_once;

verus! {

/// The tag tables: every tag name once, and which photo carries which tag.
pub ghost struct TagsView {
    /// The names of all tags, in the order of their first use.
    pub names: Seq<Seq<char>>,
    /// Pairs of a photo's position in the index and a tag's position in `names`.
    pub links: Seq<(usize, usize)>,
}

/// The place of `name` among `names`, where it is among them.
pub open spec fn name_position(names: Seq<Seq<char>>, name: Seq<char>) -> int {
    choose|j: int| 0 <= j < names.len() && names[j] == name
}

impl TagsView {
    /// No name and no pair occurs twice, and every pair points at a name.
    pub open spec fn valid(self) -> bool {
        &&& self.names.len() <= usize::MAX
        &&& forall|i: int, j: int| 0 <= i < j < self.names.len() ==> self.names[i] != self.names[j]
        &&& forall|k: int, l: int| 0 <= k < l < self.links.len() ==> self.links[k] != self.links[l]
        &&& forall|k: int| 0 <= k < self.links.len() ==> (#[trigger] self.links[k]).1 < self.names.len()
    }

    /// Whether the photo at `photo` carries the tag `name`.
    pub open spec fn has_tag(self, photo: usize, name: Seq<char>) -> bool {
        exists|k: int|
            0 <= k < self.links.len() && (#[trigger] self.links[k]).0 == photo
                && self.names[self.links[k].1 as int] == name
    }

    /// The tables with the tag `name` known: added at the end unless it is there already.
    pub open spec fn with_name(self, name: Seq<char>) -> TagsView {
        if self.names.contains(name) {
            self
        } else {
            TagsView { names: self.names.push(name), ..self }
        }
    }

    /// The tables after the photo at `photo` got the tag `name`: the name
    /// is known, and the pair is there once.
    pub open spec fn attached_one(self, photo: usize, name: Seq<char>) -> TagsView {
        let known = self.with_name(name);
        let pair = (photo, name_position(known.names, name) as usize);
        if known.links.contains(pair) {
            known
        } else {
            TagsView { links: known.links.push(pair), ..known }
        }
    }

    /// The tables after the photo at `photo` got each of `tags`, the first one first.
    pub open spec fn attached(self, photo: usize, tags: Seq<Seq<char>>) -> TagsView
        decreases tags.len(),
    {
        if tags.len() == 0 {
            self
        } else {
            self.attached(photo, tags.drop_last()).attached_one(photo, tags.last())
        }
    }
}

/// The tag tables of the index.
pub struct TagTable {
    names: Vec<String>,
    links: Vec<(usize, usize)>,
}

impl View for TagTable {
    type V = TagsView;

    closed spec fn view(&self) -> TagsView {
        TagsView { names: self.names.deep_view(), links: self.links@ }
    }
}

impl TagTable {
    /// No name and no pair occurs twice, and every pair points at a name.
    pub open spec fn wf(&self) -> bool {
        self@.valid()
    }

    /// Tables without tags.
    pub fn new() -> (r: TagTable)
        ensures
            r.wf(),
            r@ == (TagsView { names: Seq::empty(), links: Seq::empty() }),
    {
        let r = TagTable { names: Vec::new(), links: Vec::new() };
        assert(r@.names =~= Seq::<Seq<char>>::empty());
        assert(r@.links =~= Seq::<(usize, usize)>::empty());
        r
    }

    /// The table of names never outgrows the positions that can address it.
    pub proof fn names_are_bounded(&self)
        ensures
            self@.names.len() <= usize::MAX,
    {
        assert(self@.names.len() == self.names@.len());
        assert(self.names.len() == self.names@.len());
    }

    /// The number of distinct tag names.
    pub fn tag_count(&self) -> (r: usize)
        ensures
            r == self@.names.len(),
    {
        self.names.len()
    }

    /// The number of pairs of a photo and a tag.
    pub fn link_count(&self) -> (r: usize)
        ensures
            r == self@.links.len(),
    {
        self.links.len()
    }

    /// The place of a tag name, if it is known.
    fn find_name(&self, name: &String) -> (r: Option<usize>)
        requires
            self.wf(),
        ensures
            r is Some == self@.names.contains(name@),
            r matches Some(j) ==> j == name_position(self@.names, name@) && j < self@.names.len()
                && self@.names[j as int] == name@,
    {
        let mut j: usize = 0;
        while j < self.names.len()
            invariant
                self.wf(),
                j <= self.names.len(),
                forall|i: int| 0 <= i < j ==> self@.names[i] != name@,
            decreases self.names.len() - j,
        {
            assert(self@.names[j as int] == self.names[j as int]@);
            if self.names[j] == *name {
                proof {
                    let p = name_position(self@.names, name@);
                    assert(0 <= p < self@.names.len() && self@.names[p] == name@);
                    if p < j {
                        assert(self@.names[p] != self@.names[j as int]);
                    } else if j < p {
                        assert(self@.names[j as int] != self@.names[p]);
                    }
                }
                return Some(j);
            }
            j += 1;
        }
        assert(!self@.names.contains(name@)) by {
            if self@.names.contains(name@) {
                let p = choose|p: int| 0 <= p < self@.names.len() && self@.names[p] == name@;
                assert(self@.names[p] != name@);
            }
        }
        None
    }

    /// Whether the pair is in the table.
    fn has_link(&self, photo: usize, tag: usize) -> (r: bool)
        ensures
            r == self@.links.contains((photo, tag)),
    {
        let mut k: usize = 0;
        while k < self.links.len()
            invariant
                k <= self.links.len(),
                forall|i: int| 0 <= i < k ==> self@.links[i] != (photo, tag),
            decreases self.links.len() - k,
        {
            if self.links[k].0 == photo && self.links[k].1 == tag {
                assert(self@.links[k as int] == (photo, tag));
                return true;
            }
            k += 1;
        }
        false
    }

    /// Whether the photo at `photo` carries the tag `name`.
    pub fn has_tag(&self, photo: usize, name: &String) -> (r: bool)
        requires
            self.wf(),
        ensures
            r == self@.has_tag(photo, name@),
    {
        match self.find_name(name) {
            Some(j) => {
                let r = self.has_link(photo, j);
                proof {
                    if r {
                        let k = choose|k: int| 0 <= k < self@.links.len() && self@.links[k] == (photo, j);
                        assert(self@.links[k].0 == photo);
                    }
                    if self@.has_tag(photo, name@) {
                        let k = choose|k: int|
                            0 <= k < self@.links.len() && (#[trigger] self@.links[k]).0 == photo
                                && self@.names[self@.links[k].1 as int] == name@;
                        let t = self@.links[k].1 as int;
                        if t < j {
                            assert(self@.names[t] != self@.names[j as int]);
                        } else if j < t {
                            assert(self@.names[j as int] != self@.names[t]);
                        }
                        assert(self@.links[k] == (photo, j));
                    }
                }
                r
            },
            None => {
                proof {
                    if self@.has_tag(photo, name@) {
                        let k = choose|k: int|
                            0 <= k < self@.links.len() && (#[trigger] self@.links[k]).0 == photo
                                && self@.names[self@.links[k].1 as int] == name@;
                        assert(self@.names.contains(name@));
                    }
                }
                false
            },
        }
    }

    /// Gives the photo at `photo` one tag.
    fn attach_tag(&mut self, photo: usize, name: &String)
        requires
            old(self).wf(),
        ensures
            final(self).wf(),
            final(self)@ == old(self)@.attached_one(photo, name@),
    {
        let ghost before = self@;
        let tag = match self.find_name(name) {
            Some(j) => j,
            None => {
                self.names.push(name.clone());
                assert(self@.names =~= before.names.push(name@));
                assert forall|i: int, j: int| 0 <= i < j < self@.names.len() implies self@.names[i]
                    != self@.names[j] by {
                    if j == before.names.len() {
                        assert(self@.names[i] == before.names[i]);
                        if before.names[i] == name@ {
                            assert(before.names.contains(name@));
                        }
                    }
                }
                self.find_name_after_push(name)
            },
        };
        assert(self@.names == before.with_name(name@).names);
        if !self.has_link(photo, tag) {
            self.links.push((photo, tag));
        }
        proof {
            assert(self.names.len() == self.names@.len());
            assert(self@ == before.attached_one(photo, name@));
            attach_one_step(before, photo, name@);
        }
    }

    /// The place of the name that was pushed last.
    fn find_name_after_push(&self, name: &String) -> (r: usize)
        requires
            self@.names.len() > 0,
            self@.names.last() == name@,
            forall|i: int, j: int| 0 <= i < j < self@.names.len() ==> self@.names[i] != self@.names[j],
        ensures
            r == name_position(self@.names, name@),
            r == self@.names.len() - 1,
    {
        let r = self.names.len() - 1;
        proof {
            let p = name_position(self@.names, name@);
            assert(self@.names[r as int] == name@);
            assert(0 <= p < self@.names.len() && self@.names[p] == name@);
            if p < r {
                assert(self@.names[p] != self@.names[r as int]);
            }
        }
        r
    }

    /// Gives the photo at `photo` each of `tags`. A name that is known is
    /// not added again, and a photo that carries a tag is not given it twice.
    pub fn attach_tags(&mut self, photo: usize, tags: &Vec<String>)
        requires
            old(self).wf(),
        ensures
            final(self).wf(),
            final(self)@ == old(self)@.attached(photo, tags.deep_view()),
    {
        let ghost names = tags.deep_view();
        let mut i: usize = 0;
        assert(names.take(0) =~= Seq::<Seq<char>>::empty());
        while i < tags.len()
            invariant
                i <= tags.len(),
                names == tags.deep_view(),
                self.wf(),
                self@ == old(self)@.attached(photo, names.take(i as int)),
            decreases tags.len() - i,
        {
            proof {
                assert(names.take(i + 1).drop_last() =~= names.take(i as int));
                assert(names.take(i + 1).last() == tags[i as int]@);
            }
            self.attach_tag(photo, &tags[i]);
            i += 1;
        }
        assert(names.take(i as int) =~= names);
    }
}

/// What giving one photo one tag does to valid tables: they stay valid,
/// the photo carries the tag, nothing else changes hands, and nothing changes
/// at all where the photo carried the tag already.
pub proof fn attach_one_step(tags: TagsView, photo: usize, name: Seq<char>)
    requires
        tags.valid(),
        tags.attached_one(photo, name).names.len() <= usize::MAX,
    ensures
        tags.attached_one(photo, name).valid(),
        forall|q: usize, n: Seq<char>|
            #[trigger] tags.attached_one(photo, name).has_tag(q, n) == (tags.has_tag(q, n) || (q == photo
                && n == name)),
        tags.has_tag(photo, name) ==> tags.attached_one(photo, name) == tags,
{
    let known = tags.with_name(name);
    let next = tags.attached_one(photo, name);
    let j = name_position(known.names, name);
    assert(known.names.contains(name)) by {
        if !tags.names.contains(name) {
            assert(known.names[tags.names.len() as int] == name);
        }
    }
    assert(0 <= j < known.names.len() && known.names[j] == name);
    assert forall|a: int, b: int| 0 <= a < b < known.names.len() implies known.names[a] != known.names[b] by {
        if b == tags.names.len() {
            assert(known.names[a] == tags.names[a]);
            if tags.names[a] == name {
                assert(tags.names.contains(name));
            }
        }
    }
    let pair = (photo, j as usize);
    assert forall|k: int| 0 <= k < next.links.len() implies (#[trigger] next.links[k]).1 < next.names.len() by {
        if k < tags.links.len() {
            assert(next.links[k] == tags.links[k]);
        }
    }
    assert forall|k: int, l: int| 0 <= k < l < next.links.len() implies next.links[k] != next.links[l] by {
        if l == tags.links.len() {
            assert(next.links[k] == tags.links[k]);
            if tags.links[k] == pair {
                assert(known.links.contains(pair));
            }
        }
    }
    assert forall|q: usize, n: Seq<char>| #[trigger]
        next.has_tag(q, n) == (tags.has_tag(q, n) || (q == photo && n == name)) by {
        if tags.has_tag(q, n) {
            let k = choose|k: int|
                0 <= k < tags.links.len() && (#[trigger] tags.links[k]).0 == q
                    && tags.names[tags.links[k].1 as int] == n;
            assert(next.links[k] == tags.links[k]);
            assert(next.names[tags.links[k].1 as int] == tags.names[tags.links[k].1 as int]);
        }
        if q == photo && n == name {
            if known.links.contains(pair) {
                let k = choose|k: int| 0 <= k < known.links.len() && known.links[k] == pair;
                assert(next.links[k].0 == photo);
            } else {
                assert(next.links[known.links.len() as int] == pair);
                assert(next.links[known.links.len() as int].0 == photo);
            }
        }
        if next.has_tag(q, n) {
            let k = choose|k: int|
                0 <= k < next.links.len() && (#[trigger] next.links[k]).0 == q
                    && next.names[next.links[k].1 as int] == n;
            if k < tags.links.len() {
                assert(next.links[k] == tags.links[k]);
                assert(tags.links[k].1 < tags.names.len());
                assert(next.names[tags.links[k].1 as int] == tags.names[tags.links[k].1 as int]);
                assert(tags.links[k].0 == q);
            } else {
                assert(next.links[k] == pair);
            }
        }
    }
    if tags.has_tag(photo, name) {
        let k = choose|k: int|
            0 <= k < tags.links.len() && (#[trigger] tags.links[k]).0 == photo
                && tags.names[tags.links[k].1 as int] == name;
        let t = tags.links[k].1 as int;
        assert(tags.names.contains(name));
        assert(known == tags);
        if t < j {
            assert(tags.names[t] != tags.names[j]);
        } else if j < t {
            assert(tags.names[j] != tags.names[t]);
        }
        assert(tags.links[k] == pair);
        assert(known.links.contains(pair));
    }
}

/// Attaching tags never forgets a name.
pub proof fn attached_names_grow(tags: TagsView, photo: usize, names: Seq<Seq<char>>)
    ensures
        tags.names.len() <= tags.attached(photo, names).names.len(),
        names.len() > 0 ==> tags.attached(photo, names.drop_last()).names.len() <= tags.attached(
            photo,
            names,
        ).names.len(),
    decreases names.len(),
{
    if names.len() > 0 {
        attached_names_grow(tags, photo, names.drop_last());
    }
}

/// After tags are attached to a photo, it carries each of them, and
/// nothing else has changed: a photo carries a tag afterwards exactly if it
/// carried the tag before or is the photo that the tag was attached to.
pub proof fn attached_tags_are_carried(tags: TagsView, photo: usize, names: Seq<Seq<char>>)
    requires
        tags.valid(),
        tags.attached(photo, names).names.len() <= usize::MAX,
    ensures
        tags.attached(photo, names).valid(),
        forall|q: usize, n: Seq<char>|
            #[trigger] tags.attached(photo, names).has_tag(q, n) == (tags.has_tag(q, n) || (q == photo
                && names.contains(n))),
    decreases names.len(),
{
    let next = tags.attached(photo, names);
    if names.len() > 0 {
        let init = names.drop_last();
        let mid = tags.attached(photo, init);
        assert(next == mid.attached_one(photo, names.last()));
        attached_names_grow(tags, photo, names);
        attached_tags_are_carried(tags, photo, init);
        attach_one_step(mid, photo, names.last());
        assert forall|q: usize, n: Seq<char>| #[trigger]
            next.has_tag(q, n) == (tags.has_tag(q, n) || (q == photo && names.contains(n))) by {
            assert(next.has_tag(q, n) == (mid.has_tag(q, n) || (q == photo && n == names.last())));
            assert(mid.has_tag(q, n) == (tags.has_tag(q, n) || (q == photo && init.contains(n))));
            if init.contains(n) {
                let i = choose|i: int| 0 <= i < init.len() && init[i] == n;
                assert(names[i] == n);
            }
            if n == names.last() {
                assert(names[names.len() - 1] == n);
            }
            if names.contains(n) {
                let i = choose|i: int| 0 <= i < names.len() && names[i] == n;
                if i < init.len() {
                    assert(init[i] == n);
                }
            }
        }
    } else {
        assert forall|q: usize, n: Seq<char>| #[trigger]
            next.has_tag(q, n) == (tags.has_tag(q, n) || (q == photo && names.contains(n))) by {}
    }
}

/// Attaching tags that the photo carries already changes nothing.
pub proof fn attaching_carried_tags_changes_nothing(tags: TagsView, photo: usize, names: Seq<Seq<char>>)
    requires
        tags.valid(),
        forall|i: int| 0 <= i < names.len() ==> tags.has_tag(photo, #[trigger] names[i]),
    ensures
        tags.attached(photo, names) == tags,
    decreases names.len(),
{
    if names.len() > 0 {
        let init = names.drop_last();
        assert forall|i: int| 0 <= i < init.len() implies tags.has_tag(photo, #[trigger] init[i]) by {
            assert(init[i] == names[i]);
        }
        attaching_carried_tags_changes_nothing(tags, photo, init);
        let name = names.last();
        assert(name == names[names.len() - 1]);
        assert(tags.has_tag(photo, name));
        let k = choose|k: int|
            0 <= k < tags.links.len() && (#[trigger] tags.links[k]).0 == photo
                && tags.names[tags.links[k].1 as int] == name;
        assert(tags.names.contains(name));
        assert(tags.with_name(name) == tags);
        attach_one_step(tags, photo, name);
    }
}

/// A pair of a photo and a tag is attached at most once, however often it
/// is asked for: attaching the same tags to the same photo a second time changes nothing.
pub proof fn attaching_twice_changes_nothing(tags: TagsView, photo: usize, names: Seq<Seq<char>>)
    requires
        tags.valid(),
        tags.attached(photo, names).names.len() <= usize::MAX,
    ensures
        tags.attached(photo, names).attached(photo, names) == tags.attached(photo, names),
{
    attached_tags_are_carried(tags, photo, names);
    let once = tags.attached(photo, names);
    assert forall|i: int| 0 <= i < names.len() implies once.has_tag(photo, #[trigger] names[i]) by {
        assert(names.contains(names[i]));
    }
    attaching_carried_tags_changes_nothing(once, photo, names);
}

/// The context of photos: key-value pairs, each with the position of its
/// photo. A pair that is attached again is there again.
pub struct ContextTable {
    entries: Vec<(usize, String, String)>,
}

impl View for ContextTable {
    type V = Seq<(usize, Seq<char>, Seq<char>)>;

    closed spec fn view(&self) -> Seq<(usize, Seq<char>, Seq<char>)> {
        self.entries.deep_view()
    }
}

/// A context in which no key occurs twice makes entries in which no key occurs twice.
pub proof fn context_entries_keep_keys_single(photo: usize, context: Seq<(Seq<char>, Seq<char>)>)
    requires
        keys_occur_once(context),
    ensures
        context_entries(photo, context).len() == context.len(),
        forall|i: int, j: int|
            0 <= i < j < context.len() ==> (#[trigger] context_entries(photo, context)[i]).1 != (
            #[trigger] context_entries(photo, context)[j]).1,
{
    assert forall|i: int, j: int| 0 <= i < j < context.len() implies (#[trigger] context_entries(
        photo,
        context,
    )[i]).1 != (#[trigger] context_entries(photo, context)[j]).1 by {
        assert(context[i].0 != context[j].0);
    }
}

/// The entries that a context makes for the photo at `photo`.
pub open spec fn context_entries(photo: usize, context: Seq<(Seq<char>, Seq<char>)>) -> Seq<
    (usize, Seq<char>, Seq<char>),
> {
    context.map_values(|pair: (Seq<char>, Seq<char>)| (photo, pair.0, pair.1))
}

impl ContextTable {
    /// A table without entries.
    pub fn new() -> (r: ContextTable)
        ensures
            r@ == Seq::<(usize, Seq<char>, Seq<char>)>::empty(),
    {
        let r = ContextTable { entries: Vec::new() };
        assert(r@ =~= Seq::<(usize, Seq<char>, Seq<char>)>::empty());
        r
    }

    /// The number of entries.
    pub fn len(&self) -> (r: usize)
        ensures
            r == self@.len(),
    {
        self.entries.len()
    }

    /// Adds the pairs of `context` for the photo at `photo`, in their order,
    /// after the entries that are there.
    pub fn attach_context(&mut self, photo: usize, context: &Vec<(String, String)>)
        ensures
            final(self)@ == old(self)@ + context_entries(photo, context.deep_view()),
    {
        let ghost pairs = context.deep_view();
        let mut i: usize = 0;
        assert(self@ =~= old(self)@ + context_entries(photo, pairs.take(0)));
        while i < context.len()
            invariant
                i <= context.len(),
                pairs == context.deep_view(),
                self@ == old(self)@ + context_entries(photo, pairs.take(i as int)),
            decreases context.len() - i,
        {
            let ghost before = self@;
            self.entries.push((photo, context[i].0.clone(), context[i].1.clone()));
            assert(self@ =~= before.push((photo, pairs[i as int].0, pairs[i as int].1)));
            assert(self@ =~= old(self)@ + context_entries(photo, pairs.take(i + 1)));
            i += 1;
        }
        assert(pairs.take(i as int) =~= pairs);
    }
}

} // verus!
