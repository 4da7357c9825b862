//! Tags: named, optionally parametrized annotations that may enclose
//! nested events.

use crate::decimal::Decimal;
use crate::event::Event;
use crate::event::EventM;
use crate::event::view_events;
use crate::event::view_params;
use crate::tag_id::TagId;
use crate::tag_param::TagParam;
use crate::tag_param::TagParamM;
use vstd::prelude::*;

verus! {

/// The syntactic shape of a tag occurrence: a standalone marker, a
/// paired opener or closer with a numeric suffix, or a self-contained
/// range with nested events.  `Any` appears only in schemas, where it
/// accepts every shape.
#[derive(Clone, Copy, Debug, PartialEq, Eq, Structural)]
pub enum TagType {
    Any,
    Position,
    Begin(u8),
    End(u8),
    Range,
}

/// A tag: its identifier, its shape, its parameters, and the nested
/// events of its parenthesized body, if it had one.
#[derive(Debug)]
pub struct Tag {
    pub id: TagId,
    pub ty: TagType,
    pub params: Vec<TagParam>,
    pub events: Vec<Event>,
}

/// The model of a tag.
#[verifier::ext_equal]
pub struct TagM {
    pub id: TagId,
    pub ty: TagType,
    pub params: Seq<TagParamM>,
    pub events: Seq<EventM>,
}

impl View for Tag {
    type V = TagM;

    open spec fn view(&self) -> TagM {
        TagM {
            id: self.id,
            ty: self.ty,
            params: view_params(self.params@),
            events: view_events(self.events@),
        }
    }
}

impl Tag {
    /// A tag from all four parts.
    pub fn new(id: TagId, ty: TagType, params: Vec<TagParam>, events: Vec<Event>) -> (r: Tag)
        ensures
            r@ == (TagM { id, ty, params: view_params(params@), events: view_events(events@) }),
    {
        Tag { id, ty, params, events }
    }

    /// A bare positional tag with the given identifier.
    pub fn from_id(id: TagId) -> (r: Tag)
        ensures
            r@ == (TagM {
                id,
                ty: TagType::Position,
                params: Seq::<TagParamM>::empty(),
                events: Seq::<EventM>::empty(),
            }),
    {
        let r = Tag { id, ty: TagType::Position, params: Vec::new(), events: Vec::new() };
        proof {
            assert(view_params(r.params@) =~= Seq::<TagParamM>::empty());
        }
        r
    }

    /// The same tag with one more parameter.
    pub fn with_param(self, param: TagParam) -> (r: Tag)
        ensures
            r@ == (TagM { params: self@.params.push(param@), ..self@ }),
    {
        let ghost old_params = self.params@;
        let mut params = self.params;
        params.push(param);
        let r = Tag { params, ..self };
        proof {
            assert(view_params(old_params.push(param)) =~= view_params(old_params).push(param@));
            crate::event::lemma_view_events_index(r.events@);
        }
        r
    }

    /// The same tag with another shape.
    pub fn with_type(self, ty: TagType) -> (r: Tag)
        ensures
            r@ == (TagM { ty, ..self@ }),
    {
        Tag { ty, ..self }
    }

    /// Whether the tag carries any parameter.
    pub fn has_params(&self) -> (r: bool)
        ensures
            r == (self@.params.len() > 0),
    {
        self.params.len() > 0
    }

    /// The first parameter, when it is a bare number.
    pub fn as_number(&self) -> (r: Option<Decimal>)
        ensures
            match r {
                Option::Some(d) => self@.params.len() > 0 && self@.params[0] == TagParamM::Number(
                    d,
                ),
                Option::None => self@.params.len() == 0 || !(self@.params[0] is Number),
            },
    {
        if self.params.len() == 0 {
            return Option::None;
        }
        match &self.params[0] {
            TagParam::Number(d) => Option::Some(*d),
            _ => Option::None,
        }
    }
}

} // verus!
