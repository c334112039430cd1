//! CAN identifiers.

use vstd::prelude::*;
use vstd::std_specs::convert::{FromSpec, FromSpecImpl};

verus! {

/// Largest 11-bit identifier.
pub const STANDARD_ID_MAX: u16 = 0x7FF;

/// Largest 29-bit identifier.
pub const EXTENDED_ID_MAX: u32 = 0x1FFF_FFFF;

/// Calls `embedded_can::StandardId::new` and reads the identifier back with
/// `as_raw`. Believed of them: an identifier comes back exactly for values of at
/// most 11 bits, and it holds the value it was made from.
#[verifier::external_body]
fn checked_standard(raw: u16) -> (checked: Option<u16>)
    ensures
        checked == (if raw <= STANDARD_ID_MAX {
            Some(raw)
        } else {
            None
        }),
{
    match embedded_can::StandardId::new(raw) {
        Some(id) => Some(id.as_raw()),
        None => None,
    }
}

/// Calls `embedded_can::ExtendedId::new` and reads the identifier back with
/// `as_raw`. Believed of them: an identifier comes back exactly for values of at
/// most 29 bits, and it holds the value it was made from.
#[verifier::external_body]
fn checked_extended(raw: u32) -> (checked: Option<u32>)
    ensures
        checked == (if raw <= EXTENDED_ID_MAX {
            Some(raw)
        } else {
            None
        }),
{
    match embedded_can::ExtendedId::new(raw) {
        Some(id) => Some(id.as_raw()),
        None => None,
    }
}

/// Standard 11-bit CAN identifier.
#[derive(Clone, Copy, PartialEq, Eq, Debug, Hash)]
pub struct StandardId {
    raw: u16,
}

/// Extended 29-bit CAN identifier.
#[derive(Clone, Copy, PartialEq, Eq, Debug, Hash)]
pub struct ExtendedId {
    raw: u32,
}

/// A CAN identifier, standard or extended.
#[derive(Clone, Copy, PartialEq, Eq, Debug, Hash)]
pub enum Id {
    /// Standard 11-bit identifier.
    Standard(StandardId),
    /// Extended 29-bit identifier.
    Extended(ExtendedId),
}

/// An identifier by its format and its number.
pub enum IdView {
    Standard(u16),
    Extended(u32),
}

impl IdView {
    /// The number fits the format.
    pub open spec fn valid(self) -> bool {
        match self {
            IdView::Standard(raw) => raw <= STANDARD_ID_MAX,
            IdView::Extended(raw) => raw <= EXTENDED_ID_MAX,
        }
    }
}

impl View for StandardId {
    type V = u16;

    closed spec fn view(&self) -> u16 {
        self.raw
    }
}

impl View for ExtendedId {
    type V = u32;

    closed spec fn view(&self) -> u32 {
        self.raw
    }
}

impl View for Id {
    type V = IdView;

    open spec fn view(&self) -> IdView {
        match *self {
            Id::Standard(id) => IdView::Standard(id@),
            Id::Extended(id) => IdView::Extended(id@),
        }
    }
}

impl StandardId {
    /// The number has no more bits than the format.
    #[verifier::type_invariant]
    pub open spec fn in_range(self) -> bool {
        self@ <= STANDARD_ID_MAX
    }

    /// The identifier with number `raw`.
    pub closed spec fn of(raw: u16) -> StandardId {
        StandardId { raw }
    }

    /// Makes an identifier of `raw`; there is none for more than 11 bits.
    pub fn new(raw: u16) -> (id: Option<StandardId>)
        ensures
            id == (if raw <= STANDARD_ID_MAX {
                Some(StandardId::of(raw))
            } else {
                None
            }),
            id matches Some(id) ==> id@ == raw,
    {
        match checked_standard(raw) {
            Some(raw) => Some(StandardId { raw }),
            None => None,
        }
    }

    /// The number of this identifier.
    pub fn as_raw(&self) -> (raw: u16)
        ensures
            raw == self@,
            raw <= STANDARD_ID_MAX,
    {
        proof {
            use_type_invariant(self);
        }
        self.raw
    }
}

impl ExtendedId {
    /// The number has no more bits than the format.
    #[verifier::type_invariant]
    pub open spec fn in_range(self) -> bool {
        self@ <= EXTENDED_ID_MAX
    }

    /// The identifier with number `raw`.
    pub closed spec fn of(raw: u32) -> ExtendedId {
        ExtendedId { raw }
    }

    /// Makes an identifier of `raw`; there is none for more than 29 bits.
    pub fn new(raw: u32) -> (id: Option<ExtendedId>)
        ensures
            id == (if raw <= EXTENDED_ID_MAX {
                Some(ExtendedId::of(raw))
            } else {
                None
            }),
            id matches Some(id) ==> id@ == raw,
    {
        match checked_extended(raw) {
            Some(raw) => Some(ExtendedId { raw }),
            None => None,
        }
    }

    /// The number of this identifier.
    pub fn as_raw(&self) -> (raw: u32)
        ensures
            raw == self@,
            raw <= EXTENDED_ID_MAX,
    {
        proof {
            use_type_invariant(self);
        }
        self.raw
    }
}

impl Id {
    /// The identifier that `id` describes.
    pub open spec fn of(id: IdView) -> Id {
        match id {
            IdView::Standard(raw) => Id::Standard(StandardId::of(raw)),
            IdView::Extended(raw) => Id::Extended(ExtendedId::of(raw)),
        }
    }

    /// This identifier, whose number is now known to fit its format.
    pub(crate) fn in_range(self) -> (id: Id)
        ensures
            id == self,
            id@.valid(),
    {
        match self {
            Id::Standard(id) => proof {
                use_type_invariant(&id);
            },
            Id::Extended(id) => proof {
                use_type_invariant(&id);
            },
        }
        self
    }
}

impl From<StandardId> for Id {
    fn from(id: StandardId) -> (r: Id) {
        Id::Standard(id)
    }
}

impl FromSpecImpl<StandardId> for Id {
    open spec fn obeys_from_spec() -> bool {
        true
    }

    open spec fn from_spec(id: StandardId) -> Id {
        Id::Standard(id)
    }
}

impl From<ExtendedId> for Id {
    fn from(id: ExtendedId) -> (r: Id) {
        Id::Extended(id)
    }
}

impl FromSpecImpl<ExtendedId> for Id {
    open spec fn obeys_from_spec() -> bool {
        true
    }

    open spec fn from_spec(id: ExtendedId) -> Id {
        Id::Extended(id)
    }
}

/// An identifier is determined by its format and its number, and every format
/// and number have one.
pub proof fn law_id_is_its_view(id: Id, view: IdView)
    ensures
        Id::of(id@) == id,
        Id::of(view)@ == view,
{
}

/// A number is an identifier exactly if it has 11 bits, or 29 for an extended one.
pub proof fn law_identifiers_have_eleven_or_twenty_nine_bits(view: IdView)
    ensures
        view matches IdView::Standard(raw) ==> (view.valid() <==> raw < 0x800),
        view matches IdView::Extended(raw) ==> (view.valid() <==> raw < 0x2000_0000),
{
}

/// What an identifier is told apart by is its format and its number.
pub proof fn law_identifier_shows_its_number(short: StandardId, long: ExtendedId)
    ensures
        Id::Standard(short)@ == IdView::Standard(short@),
        Id::Extended(long)@ == IdView::Extended(long@),
{
}

/// Converting an identifier keeps its format and its number.
pub proof fn law_conversion_keeps_format_and_number(short: StandardId, long: ExtendedId)
    ensures
        <Id as FromSpec<StandardId>>::from_spec(short)@ == IdView::Standard(short@),
        <Id as FromSpec<ExtendedId>>::from_spec(long)@ == IdView::Extended(long@),
{
}

} // verus!
