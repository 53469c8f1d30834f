//! Declaring a field option by option: `pos = "start..end"` and one of
//! `alpha`, `numeric`, `decimal = scale`.

use crate::field::{FieldKind, FieldSpec};
use crate::position::{parse_pos, pos_text, FieldPos, PosError};
use crate::text::same_text;
use vstd::prelude::*;

verus! {

/// The options that the declaration of a field can hold.
#[derive(Debug, Clone, Copy, PartialEq, Eq, Structural)]
pub enum FieldOption {
    /// `pos`, followed by the position as text.
    Pos,
    /// `alpha`, which takes no value.
    Alpha,
    /// `numeric`, which takes no value.
    Numeric,
    /// `decimal`, followed by the scale.
    Decimal,
}

impl FieldOption {
    /// The option that is written `name`, if there is one.
    pub open spec fn named(name: Seq<char>) -> Option<FieldOption> {
        if name == "pos"@ {
            Some(FieldOption::Pos)
        } else if name == "alpha"@ {
            Some(FieldOption::Alpha)
        } else if name == "numeric"@ {
            Some(FieldOption::Numeric)
        } else if name == "decimal"@ {
            Some(FieldOption::Decimal)
        } else {
            None
        }
    }

    /// The option that is written `name`, if there is one.
    pub fn from_name(name: &str) -> (r: Option<FieldOption>)
        ensures
            r == FieldOption::named(name@),
    {
        if same_text(name, "pos") {
            Some(FieldOption::Pos)
        } else if same_text(name, "alpha") {
            Some(FieldOption::Alpha)
        } else if same_text(name, "numeric") {
            Some(FieldOption::Numeric)
        } else if same_text(name, "decimal") {
            Some(FieldOption::Decimal)
        } else {
            None
        }
    }
}

/// What a declaration lacks to describe a field.
#[derive(Debug, Clone, Copy, PartialEq, Eq, Structural)]
pub enum DraftError {
    /// No position was given.
    MissingPos,
    /// No kind was given.
    MissingKind,
}

/// What has been read of the declaration of one field. An option that is
/// given again replaces what was given before.
#[derive(Debug, Clone, Copy)]
pub struct FieldDraft {
    pos: Option<FieldPos>,
    kind: Option<FieldKind>,
}

impl FieldDraft {
    #[verifier::type_invariant]
    spec fn sound(&self) -> bool {
        self.pos matches Some(p) ==> p.wf()
    }

    /// The position read so far.
    pub closed spec fn pos(&self) -> Option<FieldPos> {
        self.pos
    }

    /// The kind read so far.
    pub closed spec fn kind(&self) -> Option<FieldKind> {
        self.kind
    }

    /// A declaration of which nothing has been read.
    pub fn new() -> (r: FieldDraft)
        ensures
            r.pos() is None,
            r.kind() is None,
    {
        FieldDraft { pos: None, kind: None }
    }

    /// Reads the value of a `pos` option. Text that is no position leaves
    /// the declaration as it was.
    pub fn set_pos(&mut self, text: &str) -> (r: Result<(), PosError>)
        ensures
            final(self).kind() == old(self).kind(),
            match r {
                Ok(_) => {
                    &&& final(self).pos() matches Some(p)
                    &&& p.wf()
                    &&& pos_text(text@) == Ok::<_, PosError>((p.start as nat, p.end as nat))
                },
                Err(e) => pos_text(text@) == Err::<(nat, nat), _>(e) && final(self).pos() == old(
                    self,
                ).pos(),
            },
    {
        proof {
            use_type_invariant(&*self);
        }
        match parse_pos(text) {
            Ok((start, end)) => {
                self.pos = Some(FieldPos { start, end });
                Ok(())
            },
            Err(e) => Err(e),
        }
    }

    /// Takes down the kind that an `alpha`, `numeric` or `decimal` option
    /// gives.
    pub fn set_kind(&mut self, kind: FieldKind)
        ensures
            final(self).kind() == Some(kind),
            final(self).pos() == old(self).pos(),
    {
        proof {
            use_type_invariant(&*self);
        }
        self.kind = Some(kind);
    }

    /// The field that the declaration describes under the name `name`, once
    /// both its position and its kind have been given.
    pub fn finish(&self, name: &'static str) -> (r: Result<FieldSpec, DraftError>)
        ensures
            match r {
                Ok(field) => {
                    &&& field.name == name
                    &&& self.pos() == Some(field.pos)
                    &&& self.kind() == Some(field.kind)
                    &&& field.pos.wf()
                },
                Err(DraftError::MissingPos) => self.pos() is None,
                Err(DraftError::MissingKind) => self.pos() is Some && self.kind() is None,
            },
    {
        proof {
            use_type_invariant(self);
        }
        match (self.pos, self.kind) {
            (None, _) => Err(DraftError::MissingPos),
            (Some(_), None) => Err(DraftError::MissingKind),
            (Some(pos), Some(kind)) => Ok(FieldSpec { name, pos, kind }),
        }
    }
}

} // verus!
