use unicode_properties::UnicodeEmoji;
use unicode_xid::UnicodeXID;
use vstd::prelude::*;

verus! {

/// Whether `c` has the Unicode property XID_Start.
pub uninterp spec fn xid_start(c: char) -> bool;

/// Whether `c` has the Unicode property XID_Continue.
pub uninterp spec fn xid_continue(c: char) -> bool;

/// Whether `c` has the Unicode property Emoji.
pub uninterp spec fn emoji(c: char) -> bool;

pub open spec fn ascii_letter(c: char) -> bool {
    ('a' <= c && c <= 'z') || ('A' <= c && c <= 'Z')
}

pub open spec fn ascii_digit(c: char) -> bool {
    '0' <= c && c <= '9'
}

pub open spec fn ascii(c: char) -> bool {
    (c as u32) < 128
}

/// Whether `c` may start an identifier word: the ASCII letters, and beyond
/// ASCII the characters with XID_Start.
pub open spec fn xid_start_char(c: char) -> bool {
    if ascii(c) {
        ascii_letter(c)
    } else {
        xid_start(c)
    }
}

/// Whether `c` may continue an identifier word: the ASCII letters, digits and
/// `_`, and beyond ASCII the characters with XID_Continue.
pub open spec fn xid_continue_char(c: char) -> bool {
    if ascii(c) {
        ascii_letter(c) || ascii_digit(c) || c == '_'
    } else {
        xid_continue(c)
    }
}

/// Relies on unicode_xid's `UnicodeXID::is_xid_start` for `char`: the
/// property alone decides, and on ASCII it holds exactly of the letters.
#[verifier::external_body]
pub(crate) fn is_xid_start(c: char) -> (r: bool)
    ensures
        ascii(c) ==> r == ascii_letter(c),
        !ascii(c) ==> r == xid_start(c),
{
    UnicodeXID::is_xid_start(c)
}

/// Relies on unicode_xid's `UnicodeXID::is_xid_continue` for `char`: the
/// property alone decides, and on ASCII it holds exactly of letters, digits
/// and `_`.
#[verifier::external_body]
pub(crate) fn is_xid_continue(c: char) -> (r: bool)
    ensures
        ascii(c) ==> r == (ascii_letter(c) || ascii_digit(c) || c == '_'),
        !ascii(c) ==> r == xid_continue(c),
{
    UnicodeXID::is_xid_continue(c)
}

/// Relies on unicode_properties' `UnicodeEmoji::is_emoji_char` for `char`:
/// whether the character is listed with Emoji=Yes.
#[verifier::external_body]
pub(crate) fn is_emoji_char(c: char) -> (r: bool)
    ensures
        r == emoji(c),
{
    UnicodeEmoji::is_emoji_char(c)
}

} // verus!
