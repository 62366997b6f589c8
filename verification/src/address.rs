//! OSC method addresses and address patterns, validated and matched by rosc.
use rosc::address::{Matcher, OscAddress};
use rosc::OscError;
use vstd::prelude::*;

verus! {

#[verifier::external_type_specification]
#[verifier::external_body]
pub struct ExOscAddress(OscAddress);

#[verifier::external_type_specification]
#[verifier::external_body]
pub struct ExMatcher(Matcher);

#[verifier::external_type_specification]
#[verifier::external_body]
pub struct ExOscError(OscError);

/// The characters an address part may hold: printable ASCII except the
/// space and `#*,/?[]{}`, which are reserved for address patterns.
pub open spec fn is_address_char(c: char) -> bool {
    &&& (c as u32) < 128
    &&& 32 <= (c as u32)
    &&& (c as u32) != 127
    &&& c != ' '
    &&& c != '#'
    &&& c != '*'
    &&& c != ','
    &&& c != '/'
    &&& c != '?'
    &&& c != '['
    &&& c != ']'
    &&& c != '{'
    &&& c != '}'
}

/// A valid OSC method address: one or more parts, each a `/` followed by at
/// least one address character, e.g. `/tempo` or `/synth/1/freq`.
pub open spec fn is_valid_address(s: Seq<char>) -> bool {
    &&& s.len() > 0
    &&& s[0] == '/'
    &&& forall|i: int| 0 <= i < s.len() ==> #[trigger] s[i] == '/' || is_address_char(s[i])
    &&& forall|i: int|
        0 <= i < s.len() && #[trigger] s[i] == '/' ==> i + 1 < s.len() && s[i + 1] != '/'
}

/// Whether rosc's `Matcher::new` accepts `pattern` as an OSC address pattern.
pub uninterp spec fn pattern_compiles(pattern: Seq<char>) -> bool;

/// Whether rosc's `Matcher::match_address` matches the address `address`
/// against a matcher built from `pattern`.
pub uninterp spec fn pattern_matches(pattern: Seq<char>, address: Seq<char>) -> bool;

/// The `OscAddress` that rosc's `OscAddress::new` makes of the text
/// `address` (its source keeps the text as it is).
pub uninterp spec fn osc_address_of(address: Seq<char>) -> OscAddress;

/// rosc's `OscAddress::new`. Its source checks the whole string against
/// `many1(pair(tag("/"), take_while1(is_address_character)))`, which is what
/// [`is_valid_address`] states: the contract claims that the call succeeds
/// exactly on valid addresses, and that what it makes is a function of the
/// text alone ([`osc_address_of`], named, not stated).
#[verifier::external_body]
fn osc_address_new(address: String) -> (r: Result<OscAddress, OscError>)
    ensures
        r is Ok <==> is_valid_address(address@),
        r matches Ok(a) ==> a == osc_address_of(address@),
{
    OscAddress::new(address)
}

/// rosc's `Matcher::new` on `text`, kept together with that text: the one
/// place where an [`AddressPattern`] is made, so that its matcher is always
/// the one built from its own text. The contract claims that it succeeds
/// exactly when the pattern compiles ([`pattern_compiles`], named, not
/// stated), and that the pattern's text is `text`. It says nothing of the
/// matcher itself: its character classes are strings collected from a
/// `HashSet`, whose order differs from one call to the next.
#[verifier::external_body]
fn compile_pattern(text: &str) -> (r: Option<AddressPattern>)
    ensures
        r is Some <==> pattern_compiles(text@),
        r matches Some(p) ==> p@ == text@,
{
    Matcher::new(text).ok().map(|matcher| AddressPattern { text: text.to_owned(), matcher })
}

/// rosc's `Matcher::match_address`, on the matcher held by `pattern`, which
/// [`compile_pattern`] built from the pattern's own text (the order of a
/// character class's characters does not change which addresses match). The
/// contract claims that the result is [`pattern_matches`] of the two texts,
/// and, as the source's first check shows, that an address equal to the
/// pattern matches.
#[verifier::external_body]
fn matcher_match_address(pattern: &AddressPattern, address: &Address) -> (r: bool)
    ensures
        r == pattern_matches(pattern@, address@),
        pattern@ == address@ ==> r,
{
    pattern.matcher.match_address(&address.osc)
}

/// A valid OSC method address.
pub struct Address {
    text: String,
    osc: OscAddress,
}

impl View for Address {
    type V = Seq<char>;

    open spec fn view(&self) -> Seq<char> {
        self.text_view()
    }
}

impl Address {
    pub closed spec fn text_view(&self) -> Seq<char> {
        self.text@
    }

    /// The rosc address held beside the text.
    pub closed spec fn osc_view(&self) -> OscAddress {
        self.osc
    }

    /// An address is always valid, and holds the rosc address made of its
    /// text.
    #[verifier::type_invariant]
    pub open spec fn valid(&self) -> bool {
        &&& is_valid_address(self@)
        &&& self.osc_view() == osc_address_of(self@)
    }

    /// The address `text`, if it is a valid OSC address.
    pub fn new(text: &str) -> (r: Option<Address>)
        ensures
            r is Some <==> is_valid_address(text@),
            r matches Some(a) ==> a@ == text@,
    {
        let owned = text.to_owned();
        let copy = text.to_owned();
        match osc_address_new(owned) {
            Ok(osc) => Some(Address { text: copy, osc }),
            Err(_) => None,
        }
    }

    /// The address as text.
    pub fn as_str(&self) -> (r: &str)
        ensures
            r@ == self@,
    {
        self.text.as_str()
    }

    /// The address as rosc's `OscAddress`: the one `OscAddress::new` makes
    /// of this address's text.
    pub fn osc_address(&self) -> (r: &OscAddress)
        ensures
            *r == osc_address_of(self@),
    {
        proof {
            use_type_invariant(self);
        }
        &self.osc
    }

    /// Whether two addresses are the same.
    pub fn same_as(&self, other: &Address) -> (r: bool)
        ensures
            r == (self@ == other@),
    {
        self.text == other.text
    }
}

/// A compiled OSC address pattern, such as `/synth/*/freq` or `/mix/[0-9]`.
pub struct AddressPattern {
    text: String,
    matcher: Matcher,
}

impl View for AddressPattern {
    type V = Seq<char>;

    open spec fn view(&self) -> Seq<char> {
        self.text_view()
    }
}

impl AddressPattern {
    pub closed spec fn text_view(&self) -> Seq<char> {
        self.text@
    }

    /// The pattern `text`, if it compiles.
    pub fn new(text: &str) -> (r: Option<AddressPattern>)
        ensures
            r is Some <==> pattern_compiles(text@),
            r matches Some(p) ==> p@ == text@,
    {
        compile_pattern(text)
    }

    /// Whether `address` matches this pattern.
    pub fn matches(&self, address: &Address) -> (r: bool)
        ensures
            r == pattern_matches(self@, address@),
    {
        matcher_match_address(self, address)
    }
}

/// Handlers are registered for plain addresses only: text holding a
/// character reserved for patterns is never a valid address.
pub proof fn lemma_pattern_characters_not_addresses(s: Seq<char>, i: int)
    requires
        0 <= i < s.len(),
        s[i] == '*' || s[i] == '?' || s[i] == '[' || s[i] == ']' || s[i] == '{' || s[i] == '}'
            || s[i] == ',' || s[i] == '#' || s[i] == ' ',
    ensures
        !is_valid_address(s),
{
    if is_valid_address(s) {
        assert(s[i] == '/' || is_address_char(s[i]));
    }
}

} // verus!
