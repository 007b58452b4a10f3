use vstd::prelude::*;

verus! {

/// Canonical form of a display name: the feed decorates some names with a
/// two-character cosmetic prefix (the section-sign formatting marker followed
/// by a one-character color code); the canonical name is the text after it.
pub open spec fn canon_name(s: Seq<char>) -> Seq<char> {
    if s.len() >= 2 && s[0] == '\u{a7}' {
        s.skip(2)
    } else {
        s
    }
}

/// A member's canonical display name, the join key for per-member balances.
pub struct Username(String);

impl View for Username {
    type V = Seq<char>;

    closed spec fn view(&self) -> Seq<char> {
        self.0@
    }
}

impl Username {
    /// Builds a canonical name from raw feed text, stripping the cosmetic
    /// formatting prefix. Works on the codepoint sequence, so multi-byte
    /// characters are never sliced apart.
    pub fn new(username: String) -> (r: Self)
        ensures
            r@ == canon_name(username@),
    {
        let s = username.as_str();
        let n = s.unicode_len();
        if n >= 2 && s.get_char(0) == '\u{a7}' {
            let stripped = s.substring_char(2, n);
            let r = Username(String::from_str(stripped));
            proof {
                assert(r@ =~= canon_name(username@));
            }
            r
        } else {
            Username(username)
        }
    }

    pub fn as_str(&self) -> (r: &str)
        ensures
            r@ == self@,
    {
        self.0.as_str()
    }

    /// The owned text of the name, for whole-string comparisons.
    pub fn as_string(&self) -> (r: &String)
        ensures
            r@ == self@,
    {
        &self.0
    }
}

impl Clone for Username {
    fn clone(&self) -> (r: Self)
        ensures
            r == *self,
    {
        Username(self.0.clone())
    }
}

} // verus!
