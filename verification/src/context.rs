//! The mutable parse state threaded through every grammar production.
//!
//! The context carries the implicit octave and duration that a note or
//! rest inherits when it omits its own, the registry of tags seen so far
//! keyed by identifier (last write wins), the tag schema, and the
//! validator.

use crate::duration::Duration;
use crate::duration::spec_gcd;
use crate::error::ParseError;
use crate::event::parsed_dur_wf;
use crate::event::tag_m_wf;
use crate::tag::Tag;
use crate::tag::TagM;
use crate::tag_defs::TagDefinitions;
use crate::tag_id::TagId;
use crate::tag_validator::TagValidator;
use crate::tag_validator::spec_validate;
use vstd::prelude::*;

verus! {

/// The parse state.
pub struct Context {
    pub octave: i8,
    pub duration: Duration,
    pub tags: Vec<Tag>,
    pub defs: TagDefinitions,
    pub validator: TagValidator,
}

/// The model of the parse state: the schema and validator stand apart
/// because they never change during a parse.
#[verifier::ext_equal]
pub struct CtxM {
    pub octave: i8,
    pub duration: Duration,
    pub tags: Seq<TagM>,
}

/// The models of the registered tags.
pub open spec fn view_tags(s: Seq<Tag>) -> Seq<TagM> {
    s.map_values(|t: Tag| t@)
}

impl View for Context {
    type V = CtxM;

    open spec fn view(&self) -> CtxM {
        CtxM { octave: self.octave, duration: self.duration, tags: view_tags(self.tags@) }
    }
}

/// The context's implicit duration stays within the grammar's range and
/// every registered tag is well formed.
pub open spec fn ctx_m_wf(c: CtxM) -> bool {
    &&& parsed_dur_wf(c.duration)
    &&& forall|i: int| 0 <= i < c.tags.len() ==> tag_m_wf(#[trigger] c.tags[i])
}

/// The most recently registered tag with the given identifier.
pub open spec fn spec_get_tag(tags: Seq<TagM>, id: TagId) -> Option<TagM>
    decreases tags.len(),
{
    if tags.len() == 0 {
        Option::None
    } else if tags.last().id == id {
        Option::Some(tags.last())
    } else {
        spec_get_tag(tags.drop_last(), id)
    }
}

impl Context {
    /// A fresh context over the given schema: octave one, whole-note
    /// duration, no registered tags.
    pub fn new(defs: TagDefinitions) -> (r: Context)
        ensures
            r@ == (CtxM {
                octave: 1,
                duration: Duration { num: 1, denom: 1 },
                tags: Seq::<TagM>::empty(),
            }),
            r.defs@ == defs@,
            ctx_m_wf(r@),
    {
        let r = Context {
            octave: 1,
            duration: Duration { num: 1, denom: 1 },
            tags: Vec::new(),
            defs,
            validator: TagValidator,
        };
        proof {
            assert(view_tags(r.tags@) =~= Seq::<TagM>::empty());
            reveal_with_fuel(spec_gcd, 3);
            assert(spec_gcd(1, 1) == 1);
            assert(r@ =~= (CtxM {
                octave: 1,
                duration: Duration { num: 1, denom: 1 },
                tags: Seq::<TagM>::empty(),
            }));
        }
        r
    }

    /// Register a tag: it becomes the most recent one of its identifier.
    pub fn add_tag(&mut self, tag: Tag)
        ensures
            final(self)@ == (CtxM { tags: old(self)@.tags.push(tag@), ..old(self)@ }),
            final(self).defs@ == old(self).defs@,
    {
        let ghost before = self.tags@;
        self.tags.push(tag);
        proof {
            assert(view_tags(self.tags@) =~= view_tags(before).push(self.tags@.last()@));
            assert(self@ =~= (CtxM { tags: old(self)@.tags.push(self.tags@.last()@), ..old(self)@ }));
        }
    }

    /// The most recently registered tag with the given identifier.
    pub fn get_tag(&self, id: TagId) -> (r: Option<&Tag>)
        ensures
            match r {
                Option::Some(t) => spec_get_tag(self@.tags, id) == Option::Some(t@),
                Option::None => spec_get_tag(self@.tags, id) is None,
            },
    {
        let ghost tags_m = view_tags(self.tags@);
        let mut k: usize = self.tags.len();
        proof {
            assert(tags_m.subrange(0, tags_m.len() as int) =~= tags_m);
        }
        while k > 0
            invariant
                0 <= k <= self.tags@.len(),
                tags_m == view_tags(self.tags@),
                tags_m.len() == self.tags@.len(),
                spec_get_tag(tags_m, id) == spec_get_tag(tags_m.subrange(0, k as int), id),
            decreases k,
        {
            k = k - 1;
            proof {
                let pre = tags_m.subrange(0, k + 1 as int);
                assert(pre.last() == tags_m[k as int]);
                assert(pre.drop_last() =~= tags_m.subrange(0, k as int));
            }
            if self.tags[k].id == id {
                return Option::Some(&self.tags[k]);
            }
        }
        proof {
            assert(tags_m.subrange(0, 0) =~= Seq::<TagM>::empty());
        }
        Option::None
    }

    /// Resolve a tag name through the schema.
    pub fn lookup_tag(&self, name: &Vec<char>) -> (r: Option<TagId>)
        ensures
            r == crate::tag_defs::spec_defs_lookup(self.defs@, name@),
    {
        self.defs.lookup(name)
    }

    /// Validate a tag against the schema.
    pub fn validate(&self, tag: &Tag) -> (r: Result<(), ParseError>)
        ensures
            r == spec_validate(tag@, self.defs@.entries),
    {
        self.validator.validate(tag, &self.defs)
    }
}

impl Default for Context {
    /// A fresh context over the built-in schema.
    fn default() -> (r: Self)
        ensures
            r@ == (CtxM {
                octave: 1,
                duration: Duration { num: 1, denom: 1 },
                tags: Seq::<TagM>::empty(),
            }),
            r.defs@ == crate::tag_defs::spec_default_defs(),
            ctx_m_wf(r@),
    {
        Context::new(TagDefinitions::default())
    }
}

} // verus!
