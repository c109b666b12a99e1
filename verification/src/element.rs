//! Elements and their attributes.

use std::sync::Arc;
use vstd::prelude::*;

use crate::interface::ElementTypeId;
use crate::messages::{PipelineId, SubpageId, Url};
use crate::text::eq_slice;

verus! {

/// An attribute of a tag or of an element.
#[derive(Debug, PartialEq, Eq)]
pub struct Attribute {
    pub name: String,
    pub value: String,
}

/// The mathematical value of an [`Attribute`].
#[verifier::ext_equal]
pub struct AttributeView {
    pub name: Seq<char>,
    pub value: Seq<char>,
}

impl View for Attribute {
    type V = AttributeView;

    open spec fn view(&self) -> AttributeView {
        AttributeView { name: self.name@, value: self.value@ }
    }
}

/// The views of a sequence of attributes.
pub open spec fn attrs_view(attrs: Seq<Attribute>) -> Seq<AttributeView> {
    attrs.map_values(|a: Attribute| a@)
}

/// Whether an attribute of this name is there.
pub open spec fn has_attr(attrs: Seq<AttributeView>, name: Seq<char>) -> bool {
    exists|i: int| 0 <= i < attrs.len() && attrs[i].name == name
}

/// The value of the attribute of this name, where there is one.
pub open spec fn attr_value(attrs: Seq<AttributeView>, name: Seq<char>) -> Option<Seq<char>>
    decreases attrs.len(),
{
    if attrs.len() == 0 {
        None
    } else if attrs.last().name == name {
        Some(attrs.last().value)
    } else {
        attr_value(attrs.drop_last(), name)
    }
}

/// Whether reading `name` gives `value`: the last attribute of that name has it.
pub open spec fn reads(attrs: Seq<Attribute>, name: Seq<char>, value: Seq<char>) -> bool {
    exists|i: int|
        0 <= i < attrs.len() && (#[trigger] attrs[i]).name@ == name && attrs[i].value@ == value && (
        forall|j: int| i < j < attrs.len() ==> (#[trigger] attrs[j]).name@ != name)
}

/// The attributes after one is set: an attribute that is there keeps its place and
/// gets the new value, another one comes last.
pub open spec fn attrs_set(attrs: Seq<AttributeView>, name: Seq<char>, value: Seq<char>) -> Seq<
    AttributeView,
> {
    if has_attr(attrs, name) {
        attrs.map_values(
            |a: AttributeView|
                if a.name == name {
                    AttributeView { name, value }
                } else {
                    a
                },
        )
    } else {
        attrs.push(AttributeView { name, value })
    }
}

/// The attributes after those of a tag are set, one after the other.
pub open spec fn attrs_set_all(attrs: Seq<AttributeView>, given: Seq<AttributeView>) -> Seq<
    AttributeView,
>
    decreases given.len(),
{
    if given.len() == 0 {
        attrs
    } else {
        attrs_set(
            attrs_set_all(attrs, given.drop_last()),
            given.last().name,
            given.last().value,
        )
    }
}

/// No two attributes have the same name.
pub open spec fn distinct_names(attrs: Seq<AttributeView>) -> bool {
    forall|i: int, j: int|
        0 <= i < attrs.len() && 0 <= j < attrs.len() && i != j ==> attrs[i].name != attrs[j].name
}

/// Whether no two attributes have the same name.
pub fn names_are_distinct(attrs: &Vec<Attribute>) -> (distinct: bool)
    ensures
        distinct == distinct_names(attrs_view(attrs@)),
        distinct <==> forall|i: int, j: int|
            0 <= i < j < attrs@.len() ==> (#[trigger] attrs@[i]).name@ != (
            #[trigger] attrs@[j]).name@,
{
    let ghost view = attrs_view(attrs@);
    let mut i: usize = 0;
    while i < attrs.len()
        invariant
            i <= attrs.len(),
            view == attrs_view(attrs@),
            forall|k: int, l: int|
                0 <= k < i && 0 <= l < i && k != l ==> view[k].name != view[l].name,
        decreases attrs.len() - i,
    {
        let mut j: usize = 0;
        while j < i
            invariant
                j <= i < attrs.len(),
                view == attrs_view(attrs@),
                forall|k: int| 0 <= k < j ==> view[k].name != view[i as int].name,
            decreases i - j,
        {
            if eq_slice(attrs[i].name.as_str(), attrs[j].name.as_str()) {
                assert(view[i as int].name == view[j as int].name);
                assert(attrs@[j as int].name@ == attrs@[i as int].name@);
                return false;
            }
            j = j + 1;
        }
        i = i + 1;
    }
    assert forall|k: int, l: int| 0 <= k < l < attrs@.len() implies (
    #[trigger] attrs@[k]).name@ != (#[trigger] attrs@[l]).name@ by {
        assert(view[k].name != view[l].name);
    }
    true
}

/// The frame that an `iframe` element shows: the page it belongs to, its number there,
/// where its size is to be sent, and whom to tell of changes.
///
/// `C` is the sending end for a size, and `K` the channel to whoever arranges the pages.
#[derive(Debug, PartialEq, Eq)]
pub struct IFrameSize<C, K> {
    pub pipeline_id: PipelineId,
    pub subpage_id: SubpageId,
    pub future_chan: Option<C>,
    pub constellation_chan: Arc<K>,
}

/// An element. `frame` and `size` are for `iframe` elements.
#[derive(Debug, PartialEq, Eq)]
pub struct Element<C, K> {
    pub type_id: ElementTypeId,
    pub local_name: String,
    pub attrs: Vec<Attribute>,
    pub frame: Option<Url>,
    pub size: Option<IFrameSize<C, K>>,
}

/// The mathematical value of an [`Element`].
#[verifier::ext_equal]
pub struct ElementView<C, K> {
    pub type_id: ElementTypeId,
    pub local_name: Seq<char>,
    pub attrs: Seq<AttributeView>,
    pub frame: Option<Seq<char>>,
    pub size: Option<IFrameSize<C, K>>,
}

impl<C, K> View for Element<C, K> {
    type V = ElementView<C, K>;

    open spec fn view(&self) -> ElementView<C, K> {
        ElementView {
            type_id: self.type_id,
            local_name: self.local_name@,
            attrs: attrs_view(self.attrs@),
            frame: match self.frame {
                Some(url) => Some(url@),
                None => None,
            },
            size: self.size,
        }
    }
}

/// An element as it is created: nothing but an interface and a name.
pub open spec fn new_element<C, K>(
    type_id: ElementTypeId,
    local_name: Seq<char>,
) -> ElementView<C, K> {
    ElementView { type_id, local_name, attrs: Seq::empty(), frame: None, size: None }
}

impl<C, K> Element<C, K> {
    /// An element without attributes.
    pub fn new(type_id: ElementTypeId, local_name: String) -> (element: Self)
        ensures
            element@ == new_element::<C, K>(type_id, local_name@),
            element.type_id == type_id,
            element.local_name == local_name,
            element.attrs@.len() == 0,
            element.frame is None,
            element.size is None,
    {
        let element = Element { type_id, local_name, attrs: Vec::new(), frame: None, size: None };
        assert(element@.attrs =~= Seq::empty());
        element
    }

    /// The value of an attribute.
    pub fn get_attr(&self, name: &str) -> (value: Option<&str>)
        ensures
            value matches Some(v) ==> attr_value(self@.attrs, name@) == Some(v@),
            value is None ==> attr_value(self@.attrs, name@) is None,
            value matches Some(v) ==> reads(self.attrs@, name@, v@),
            value is None <==> forall|i: int|
                0 <= i < self.attrs@.len() ==> (#[trigger] self.attrs@[i]).name@ != name@,
    {
        let mut value: Option<&str> = None;
        let mut i: usize = 0;
        while i < self.attrs.len()
            invariant
                i <= self.attrs.len(),
                value matches Some(v) ==> attr_value(self@.attrs.take(i as int), name@) == Some(v@),
                value is None ==> attr_value(self@.attrs.take(i as int), name@) is None,
            decreases self.attrs.len() - i,
        {
            assert(self@.attrs.take(i + 1).drop_last() =~= self@.attrs.take(i as int));
            if eq_slice(self.attrs[i].name.as_str(), name) {
                value = Some(self.attrs[i].value.as_str());
            }
            i = i + 1;
        }
        assert(self@.attrs.take(i as int) =~= self@.attrs);
        proof {
            lemma_value_is_read(self.attrs@, name@);
        }
        value
    }

    /// Gives an attribute a value.
    pub fn set_attr(&mut self, name: String, value: String)
        ensures
            final(self)@ == (ElementView {
                attrs: attrs_set(old(self)@.attrs, name@, value@),
                ..old(self)@
            }),
            *final(self) == (Element { attrs: final(self).attrs, ..*old(self) }),
            forall|i: int|
                0 <= i < old(self).attrs@.len() ==> (#[trigger] final(self).attrs@[i]) == (
                Attribute {
                    name: old(self).attrs@[i].name,
                    value: if old(self).attrs@[i].name@ == name@ {
                        value
                    } else {
                        old(self).attrs@[i].value
                    },
                }),
            final(self).attrs@.len() == old(self).attrs@.len() <==> exists|i: int|
                0 <= i < old(self).attrs@.len() && (#[trigger] old(self).attrs@[i]).name@ == name@,
            final(self).attrs@.len() != old(self).attrs@.len() ==> final(self).attrs@.len()
                == old(self).attrs@.len() + 1 && final(self).attrs@.last() == (Attribute {
                name,
                value,
            }),
    {
        let ghost before = self@;
        let ghost entry = *self;
        let mut found: bool = false;
        let mut i: usize = 0;
        while i < self.attrs.len()
            invariant
                i <= self.attrs.len(),
                self.attrs.len() == before.attrs.len(),
                self@ == (ElementView { attrs: self@.attrs, ..before }),
                *self == (Element { attrs: self.attrs, ..entry }),
                self.attrs.len() == entry.attrs.len(),
                before == entry@,
                forall|k: int|
                    i <= k < entry.attrs.len() ==> (#[trigger] self.attrs@[k]) == entry.attrs@[k],
                forall|k: int|
                    0 <= k < i ==> (#[trigger] self.attrs@[k]) == (Attribute {
                        name: entry.attrs@[k].name,
                        value: if entry.attrs@[k].name@ == name@ {
                            value
                        } else {
                            entry.attrs@[k].value
                        },
                    }),
                found <==> exists|k: int| 0 <= k < i && before.attrs[k].name == name@,
                forall|k: int| i <= k < before.attrs.len() ==> self@.attrs[k] == before.attrs[k],
                forall|k: int|
                    0 <= k < i ==> #[trigger] self@.attrs[k] == (if before.attrs[k].name == name@ {
                        AttributeView { name: name@, value: value@ }
                    } else {
                        before.attrs[k]
                    }),
            decreases self.attrs.len() - i,
        {
            let ghost prior = self@.attrs;
            assert(prior[i as int] == before.attrs[i as int]);
            if eq_slice(self.attrs[i].name.as_str(), name.as_str()) {
                self.attrs[i].value = value.clone();
                found = true;
                assert(self@.attrs =~= prior.update(
                    i as int,
                    AttributeView { name: name@, value: value@ },
                ));
            }
            i = i + 1;
        }
        assert(found == has_attr(before.attrs, name@));
        assert(found <==> exists|k: int|
            0 <= k < entry.attrs@.len() && (#[trigger] entry.attrs@[k]).name@ == name@) by {
            if found {
                let k = choose|k: int| 0 <= k < i && before.attrs[k].name == name@;
                assert(entry.attrs@[k].name@ == name@);
            }
            if exists|k: int|
                0 <= k < entry.attrs@.len() && (#[trigger] entry.attrs@[k]).name@ == name@ {
                let k = choose|k: int|
                    0 <= k < entry.attrs@.len() && (#[trigger] entry.attrs@[k]).name@ == name@;
                assert(before.attrs[k].name == name@);
            }
        }
        if found {
            assert(self@.attrs =~= attrs_set(before.attrs, name@, value@));
        } else {
            assert(self@.attrs =~= before.attrs);
            self.attrs.push(Attribute { name, value });
            assert(self@.attrs =~= attrs_set(before.attrs, name@, value@));
        }
    }
}

/// A new element has the interface and the name that it is given, and nothing else.
pub proof fn law_new_elements_are_bare<C, K>(type_id: ElementTypeId, local_name: Seq<char>)
    ensures
        new_element::<C, K>(type_id, local_name).type_id == type_id,
        new_element::<C, K>(type_id, local_name).local_name == local_name,
        new_element::<C, K>(type_id, local_name).attrs.len() == 0,
        new_element::<C, K>(type_id, local_name).frame is None,
        new_element::<C, K>(type_id, local_name).size is None,
{
}

/// What is read under a name is the value of the last attribute of that name, and nothing
/// is read exactly where there is none.
pub proof fn law_the_last_value_is_read(attrs: Seq<AttributeView>, name: Seq<char>)
    ensures
        attr_value(attrs, name) is None <==> forall|i: int|
            0 <= i < attrs.len() ==> (#[trigger] attrs[i]).name != name,
        attr_value(attrs, name) matches Some(value) ==> exists|i: int|
            0 <= i < attrs.len() && (#[trigger] attrs[i]).name == name && attrs[i].value == value
                && (forall|j: int| i < j < attrs.len() ==> (#[trigger] attrs[j]).name != name),
    decreases attrs.len(),
{
    if attrs.len() > 0 {
        let rest = attrs.drop_last();
        law_the_last_value_is_read(rest, name);
        if attrs.last().name == name {
            assert(attrs[attrs.len() - 1].name == name);
        } else if attr_value(rest, name) is Some {
            let i = choose|i: int|
                0 <= i < rest.len() && (#[trigger] rest[i]).name == name && Some(rest[i].value)
                    == attr_value(rest, name) && (forall|j: int|
                    i < j < rest.len() ==> (#[trigger] rest[j]).name != name);
            assert(attrs[i] == rest[i]);
            assert forall|j: int| i < j < attrs.len() implies (
            #[trigger] attrs[j]).name != name by {
                if j < rest.len() {
                    assert(rest[j] == attrs[j]);
                }
            }
        } else {
            assert forall|j: int| 0 <= j < attrs.len() implies (
            #[trigger] attrs[j]).name != name by {
                if j < rest.len() {
                    assert(rest[j] == attrs[j]);
                }
            }
        }
    }
}

/// Reading a name gives a value exactly where the last attribute of that name has it, and
/// no second value.
pub proof fn law_reading_gives_the_last_value(
    attrs: Seq<Attribute>,
    name: Seq<char>,
    value: Seq<char>,
    other: Seq<char>,
)
    ensures
        reads(attrs, name, value) <==> exists|i: int|
            0 <= i < attrs.len() && (#[trigger] attrs[i]).name@ == name && attrs[i].value@ == value
                && (forall|j: int| i < j < attrs.len() ==> (#[trigger] attrs[j]).name@ != name),
        reads(attrs, name, value) && reads(attrs, name, other) ==> value == other,
{
    lemma_value_is_read(attrs, name);
}

/// What is read of the views is what is read.
pub proof fn lemma_value_is_read(attrs: Seq<Attribute>, name: Seq<char>)
    ensures
        forall|value: Seq<char>|
            #[trigger] reads(attrs, name, value) <==> attr_value(attrs_view(attrs), name) == Some(
                value,
            ),
        attr_value(attrs_view(attrs), name) is None <==> forall|i: int|
            0 <= i < attrs.len() ==> (#[trigger] attrs[i]).name@ != name,
    decreases attrs.len(),
{
    let views = attrs_view(attrs);
    if attrs.len() > 0 {
        let rest = attrs.drop_last();
        let last = attrs.len() - 1;
        lemma_value_is_read(rest, name);
        assert(views.drop_last() =~= attrs_view(rest));
        assert(views.last() == attrs[last]@);
        assert forall|value: Seq<char>| #[trigger]
            reads(attrs, name, value) <==> attr_value(views, name) == Some(value) by {
            if attrs[last].name@ != name {
                assert(reads(rest, name, value) == reads(attrs, name, value)) by {
                    if reads(rest, name, value) {
                        let i = choose|i: int|
                            0 <= i < rest.len() && (#[trigger] rest[i]).name@ == name
                                && rest[i].value@ == value && (forall|j: int|
                                i < j < rest.len() ==> (#[trigger] rest[j]).name@ != name);
                        assert(attrs[i] == rest[i]);
                        assert forall|j: int| i < j < attrs.len() implies (
                        #[trigger] attrs[j]).name@ != name by {
                            if j < last {
                                assert(rest[j] == attrs[j]);
                            }
                        }
                    }
                    if reads(attrs, name, value) {
                        let i = choose|i: int|
                            0 <= i < attrs.len() && (#[trigger] attrs[i]).name@ == name
                                && attrs[i].value@ == value && (forall|j: int|
                                i < j < attrs.len() ==> (#[trigger] attrs[j]).name@ != name);
                        assert(attrs[i] == rest[i]);
                        assert forall|j: int| i < j < rest.len() implies (
                        #[trigger] rest[j]).name@ != name by {
                            assert(rest[j] == attrs[j]);
                        }
                    }
                }
            } else if reads(attrs, name, value) {
                let i = choose|i: int|
                    0 <= i < attrs.len() && (#[trigger] attrs[i]).name@ == name && attrs[i].value@
                        == value && (forall|j: int|
                        i < j < attrs.len() ==> (#[trigger] attrs[j]).name@ != name);
                assert(i == last);
            }
        }
        if attr_value(views, name) is None {
            assert forall|j: int| 0 <= j < attrs.len() implies (
            #[trigger] attrs[j]).name@ != name by {
                if j < last {
                    assert(rest[j] == attrs[j]);
                }
            }
        } else if attrs[last].name@ != name {
            let i = choose|i: int| 0 <= i < rest.len() && (#[trigger] rest[i]).name@ == name;
            assert(attrs[i] == rest[i]);
        }
    }
}

/// Setting an attribute gives the new value to each one of that name, or else to a new one
/// that comes last, and leaves the others as they are and where they are.
pub proof fn law_setting_an_attribute(
    attrs: Seq<AttributeView>,
    name: Seq<char>,
    value: Seq<char>,
)
    ensures
        ({
            let after = attrs_set(attrs, name, value);
            &&& forall|i: int|
                0 <= i < attrs.len() ==> (#[trigger] after[i]).name == attrs[i].name
                    && after[i].value == (if attrs[i].name == name {
                    value
                } else {
                    attrs[i].value
                })
            &&& if exists|i: int| 0 <= i < attrs.len() && (#[trigger] attrs[i]).name == name {
                after.len() == attrs.len()
            } else {
                &&& after.len() == attrs.len() + 1
                &&& after.last().name == name
                &&& after.last().value == value
            }
        }),
{
}

/// Reading an attribute gives back what was last written to it, and writing one
/// attribute leaves the others alone.
pub proof fn law_set_attribute_reads_back(
    attrs: Seq<AttributeView>,
    name: Seq<char>,
    value: Seq<char>,
    read: Seq<char>,
)
    ensures
        attr_value(attrs_set(attrs, name, value), read) == (if read == name {
            Some(value)
        } else {
            attr_value(attrs, read)
        }),
{
    if has_attr(attrs, name) {
        lemma_replaced_value(attrs, name, value, read);
    } else {
        let after = attrs.push(AttributeView { name, value });
        assert(after.drop_last() =~= attrs);
    }
}

/// Replacing every value under `name` changes what is read under `name`, if anything
/// was there, and nothing else.
proof fn lemma_replaced_value(
    attrs: Seq<AttributeView>,
    name: Seq<char>,
    value: Seq<char>,
    read: Seq<char>,
)
    ensures
        attr_value(
            attrs.map_values(
                |a: AttributeView|
                    if a.name == name {
                        AttributeView { name, value }
                    } else {
                        a
                    },
            ),
            read,
        ) == (if read == name && has_attr(attrs, name) {
            Some(value)
        } else {
            attr_value(attrs, read)
        }),
    decreases attrs.len(),
{
    let replace = |a: AttributeView|
        if a.name == name {
            AttributeView { name, value }
        } else {
            a
        };
    let after = attrs.map_values(replace);
    if attrs.len() > 0 {
        lemma_replaced_value(attrs.drop_last(), name, value, read);
        assert(after.drop_last() =~= attrs.drop_last().map_values(replace));
        let rest = attrs.drop_last();
        if has_attr(attrs, name) && attrs.last().name != name {
            let i = choose|i: int| 0 <= i < attrs.len() && attrs[i].name == name;
            assert(rest[i].name == name);
            assert(has_attr(rest, name));
        }
        if has_attr(rest, name) {
            let i = choose|i: int| 0 <= i < rest.len() && rest[i].name == name;
            assert(attrs[i].name == name);
        }
        if attrs.last().name == name {
            assert(has_attr(attrs, name));
        }
    }
}

/// The attribute names of an element stay distinct when one is set.
pub proof fn law_set_attribute_keeps_names_distinct(
    attrs: Seq<AttributeView>,
    name: Seq<char>,
    value: Seq<char>,
)
    requires
        distinct_names(attrs),
    ensures
        distinct_names(attrs_set(attrs, name, value)),
{
    let after = attrs_set(attrs, name, value);
    if has_attr(attrs, name) {
        assert(after.len() == attrs.len());
        assert(forall|i: int| 0 <= i < attrs.len() ==> after[i].name == attrs[i].name);
    }
}

/// An element that is given the attributes of a tag holds the tag's attributes: under
/// each name the value that the tag gives last, and no name twice.
pub proof fn law_tag_attributes_read_back(given: Seq<AttributeView>, read: Seq<char>)
    ensures
        attr_value(attrs_set_all(Seq::empty(), given), read) == attr_value(given, read),
        distinct_names(attrs_set_all(Seq::empty(), given)),
    decreases given.len(),
{
    if given.len() > 0 {
        let before = attrs_set_all(Seq::empty(), given.drop_last());
        law_tag_attributes_read_back(given.drop_last(), read);
        law_set_attribute_reads_back(before, given.last().name, given.last().value, read);
        law_set_attribute_keeps_names_distinct(before, given.last().name, given.last().value);
    }
}

/// An element that is given the attributes of a tag has exactly the names that the tag
/// gives, each once, with the value that the tag gives last.
pub proof fn law_tag_attributes_are_taken_over(given: Seq<AttributeView>, name: Seq<char>)
    ensures
        ({
            let taken = attrs_set_all(Seq::empty(), given);
            &&& (exists|k: int| 0 <= k < taken.len() && (#[trigger] taken[k]).name == name) <==> (
            exists|i: int| 0 <= i < given.len() && (#[trigger] given[i]).name == name)
            &&& forall|k: int, i: int|
                0 <= k < taken.len() && 0 <= i < given.len() && (#[trigger] taken[k]).name == name
                    && (#[trigger] given[i]).name == name && (forall|j: int|
                    i < j < given.len() ==> (#[trigger] given[j]).name != name)
                    ==> taken[k].value == given[i].value
            &&& forall|k: int, l: int|
                0 <= k < l < taken.len() ==> (#[trigger] taken[k]).name != (
                #[trigger] taken[l]).name
        }),
{
    let taken = attrs_set_all(Seq::empty(), given);
    law_tag_attributes_read_back(given, name);
    law_the_last_value_is_read(given, name);
    law_the_last_value_is_read(taken, name);
}

/// The attributes that an element takes over from a tag stand in the order in which the
/// tag first gives their names.
pub proof fn law_tag_attributes_keep_their_order(given: Seq<AttributeView>, k: int, l: int)
    requires
        0 <= k < l < attrs_set_all(Seq::empty(), given).len(),
    ensures
        ({
            let taken = attrs_set_all(Seq::empty(), given);
            exists|i: int|
                0 <= i < given.len() && (#[trigger] given[i]).name == taken[k].name && (
                forall|j: int| 0 <= j <= i ==> (#[trigger] given[j]).name != taken[l].name)
        }),
    decreases given.len(),
{
    let taken = attrs_set_all(Seq::empty(), given);
    assert(given.len() > 0);
    let rest = given.drop_last();
    let last = given.last();
    let before = attrs_set_all(Seq::empty(), rest);
    law_setting_an_attribute(before, last.name, last.value);
    assert(before[k].name == taken[k].name);
    if l < before.len() {
        assert(before[l].name == taken[l].name);
        law_tag_attributes_keep_their_order(rest, k, l);
        let i = choose|i: int|
            0 <= i < rest.len() && (#[trigger] rest[i]).name == before[k].name && (forall|j: int|
                0 <= j <= i ==> (#[trigger] rest[j]).name != before[l].name);
        assert(given[i] == rest[i]);
        assert forall|j: int| 0 <= j <= i implies (#[trigger] given[j]).name != taken[l].name by {
            assert(rest[j] == given[j]);
        }
    } else {
        law_tag_attributes_are_taken_over(rest, before[k].name);
        law_tag_attributes_are_taken_over(rest, last.name);
        let i = choose|i: int| 0 <= i < rest.len() && (#[trigger] rest[i]).name == before[k].name;
        assert(given[i] == rest[i]);
        assert forall|j: int| 0 <= j <= i implies (#[trigger] given[j]).name != taken[l].name by {
            assert(rest[j] == given[j]);
        }
    }
}

} // verus!
