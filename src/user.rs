use vstd::prelude::*;
use vstd::string::StrSliceExecFns;

use crate::packet::byte_len;
use crate::text::chars_of;

verus! {

/// Longest accepted user name, in bytes.
pub const MAX_USERNAME_LENGTH: usize = 64;

/// Length of an enrolment token, in bytes.
pub const TOKEN_LENGTH: usize = 128;

/// Whether `c` may stand in a user name or a token: an ASCII letter or digit,
/// or `_`.
pub open spec fn is_safe_char(c: char) -> bool {
    ('a' <= c && c <= 'z') || ('A' <= c && c <= 'Z') || ('0' <= c && c <= '9') || c == '_'
}

/// Whether every character of `s` is safe.
pub open spec fn is_safe_spec(s: Seq<char>) -> bool {
    forall|i: int| 0 <= i < s.len() ==> is_safe_char(#[trigger] s[i])
}

/// Whether every character of `s` is an ASCII letter or digit, or `_`.
pub fn is_safe(s: &str) -> (r: bool)
    ensures
        r == is_safe_spec(s@),
{
    let cs = chars_of(s);
    let mut i: usize = 0;
    while i < cs.len()
        invariant
            cs@ == s@,
            i <= cs@.len(),
            forall|k: int| 0 <= k < i ==> is_safe_char(#[trigger] s@[k]),
        decreases cs@.len() - i,
    {
        let c = cs[i];
        if !(('a' <= c && c <= 'z') || ('A' <= c && c <= 'Z') || ('0' <= c && c <= '9') || c
            == '_') {
            assert(!is_safe_char(s@[i as int]));
            return false;
        }
        i = i + 1;
    }
    true
}

/// Why a text is no valid user name.
#[derive(Debug, Clone, PartialEq, Eq)]
pub enum InvalidUsernameError {
    /// Longer than the limit, which it holds.
    TooLong(usize),
    /// Empty.
    TooShort,
    /// Holds a character other than an ASCII letter or digit, or `_`; holds
    /// the text.
    InvalidCharacters(String),
}

/// A valid user name: 1 to 64 bytes of ASCII letters, digits and `_`.
#[derive(Debug, Clone)]
pub struct Username(String);

impl View for Username {
    type V = Seq<char>;

    closed spec fn view(&self) -> Seq<char> {
        self.0@
    }
}

impl Username {
    /// Checks `value` and makes it a user name.
    pub fn parse(value: String) -> (r: Result<Username, InvalidUsernameError>)
        ensures
            value@.len() == 0 ==> r == Err::<Username, _>(InvalidUsernameError::TooShort),
            value@.len() > 0 && byte_len(value@) > MAX_USERNAME_LENGTH ==> r == Err::<Username, _>(
                InvalidUsernameError::TooLong(MAX_USERNAME_LENGTH),
            ),
            value@.len() > 0 && byte_len(value@) <= MAX_USERNAME_LENGTH && !is_safe_spec(value@)
                ==> r == Err::<Username, _>(InvalidUsernameError::InvalidCharacters(value)),
            value@.len() > 0 && byte_len(value@) <= MAX_USERNAME_LENGTH && is_safe_spec(value@)
                ==> r is Ok && r->Ok_0@ == value@,
    {
        if value.as_str().unicode_len() == 0 {
            Err(InvalidUsernameError::TooShort)
        } else if value.as_str().as_bytes().len() > MAX_USERNAME_LENGTH {
            Err(InvalidUsernameError::TooLong(MAX_USERNAME_LENGTH))
        } else if !is_safe(value.as_str()) {
            Err(InvalidUsernameError::InvalidCharacters(value))
        } else {
            Ok(Username(value))
        }
    }

    /// The name as text.
    pub fn as_str(&self) -> (r: &str)
        ensures
            r@ == self@,
    {
        self.0.as_str()
    }
}

/// A text that is no valid enrolment token.
#[derive(Debug, Clone, Copy, PartialEq, Eq)]
pub struct InvalidTokenError;

/// A token that lets a new user choose a password.
#[derive(Debug, Clone)]
pub struct EnrollToken(String);

impl View for EnrollToken {
    type V = Seq<char>;

    closed spec fn view(&self) -> Seq<char> {
        self.0@
    }
}

impl PartialEq for EnrollToken {
    fn eq(&self, other: &EnrollToken) -> (r: bool)
        ensures
            r == (self@ == other@),
    {
        self.0 == other.0
    }
}

impl vstd::std_specs::cmp::PartialEqSpecImpl for EnrollToken {
    open spec fn obeys_eq_spec() -> bool {
        true
    }

    open spec fn eq_spec(&self, other: &EnrollToken) -> bool {
        self@ == other@
    }
}

impl EnrollToken {
    /// Accepts `token` unless it is exactly `TOKEN_LENGTH` bytes long and
    /// holds a character other than an ASCII letter or digit, or `_`.
    pub fn parse(token: String) -> (r: Result<EnrollToken, InvalidTokenError>)
        ensures
            (is_safe_spec(token@) || byte_len(token@) != TOKEN_LENGTH) ==> r is Ok && r->Ok_0@
                == token@,
            !(is_safe_spec(token@) || byte_len(token@) != TOKEN_LENGTH) ==> r
                == Err::<EnrollToken, _>(InvalidTokenError),
    {
        if is_safe(token.as_str()) || token.as_str().as_bytes().len() != TOKEN_LENGTH {
            Ok(EnrollToken(token))
        } else {
            Err(InvalidTokenError)
        }
    }

    /// The token as text.
    pub fn as_str(&self) -> (r: &str)
        ensures
            r@ == self@,
    {
        self.0.as_str()
    }
}

/// ASCII punctuation: the printable ASCII characters that are neither
/// letters, digits nor the space.
pub open spec fn is_punct(c: char) -> bool {
    ('!' <= c && c <= '/') || (':' <= c && c <= '@') || ('[' <= c && c <= '`') || ('{' <= c
        && c <= '~')
}

/// How many of the four classes (lowercase, uppercase, digit, punctuation)
/// occur in `s`.
pub open spec fn class_count(s: Seq<char>) -> int {
    (if exists|i: int| 0 <= i < s.len() && 'a' <= #[trigger] s[i] <= 'z' {
        1int
    } else {
        0
    }) + (if exists|i: int| 0 <= i < s.len() && 'A' <= #[trigger] s[i] <= 'Z' {
        1int
    } else {
        0
    }) + (if exists|i: int| 0 <= i < s.len() && '0' <= #[trigger] s[i] <= '9' {
        1int
    } else {
        0
    }) + (if exists|i: int| 0 <= i < s.len() && is_punct(#[trigger] s[i]) {
        1int
    } else {
        0
    })
}

/// A strong password mixes at least three of the four classes lowercase,
/// uppercase, digit and punctuation.
pub fn is_strong_password(password: &str) -> (r: bool)
    ensures
        r == (class_count(password@) >= 3),
{
    let cs = chars_of(password);
    let mut lowercase: u8 = 0;
    let mut uppercase: u8 = 0;
    let mut digit: u8 = 0;
    let mut punctuation: u8 = 0;
    let mut i: usize = 0;
    while i < cs.len()
        invariant
            cs@ == password@,
            i <= cs@.len(),
            lowercase == (if exists|k: int| 0 <= k < i && 'a' <= #[trigger] cs@[k] <= 'z' {
                1u8
            } else {
                0
            }),
            uppercase == (if exists|k: int| 0 <= k < i && 'A' <= #[trigger] cs@[k] <= 'Z' {
                1u8
            } else {
                0
            }),
            digit == (if exists|k: int| 0 <= k < i && '0' <= #[trigger] cs@[k] <= '9' {
                1u8
            } else {
                0
            }),
            punctuation == (if exists|k: int| 0 <= k < i && is_punct(#[trigger] cs@[k]) {
                1u8
            } else {
                0
            }),
            lowercase + uppercase + digit + punctuation < 3,
        decreases cs@.len() - i,
    {
        let c = cs[i];
        if 'a' <= c && c <= 'z' {
            lowercase = 1;
        }
        if 'A' <= c && c <= 'Z' {
            uppercase = 1;
        }
        if '0' <= c && c <= '9' {
            digit = 1;
        }
        if ('!' <= c && c <= '/') || (':' <= c && c <= '@') || ('[' <= c && c <= '`') || ('{'
            <= c && c <= '~') {
            punctuation = 1;
        }
        i = i + 1;
        if lowercase + uppercase + digit + punctuation >= 3 {
            proof {
                lemma_class_count_grows(password@, i as int);
            }
            return true;
        }
    }
    assert(password@.subrange(0, i as int) =~= password@);
    proof {
        lemma_class_count_grows(password@, i as int);
    }
    false
}

/// The classes found in a prefix of `s` are found in `s`, and the count of a
/// prefix is as the loop tracks it.
proof fn lemma_class_count_grows(s: Seq<char>, i: int)
    requires
        0 <= i <= s.len(),
    ensures
        class_count(s) >= (if exists|k: int| 0 <= k < i && 'a' <= #[trigger] s[k] <= 'z' {
            1int
        } else {
            0
        }) + (if exists|k: int| 0 <= k < i && 'A' <= #[trigger] s[k] <= 'Z' {
            1int
        } else {
            0
        }) + (if exists|k: int| 0 <= k < i && '0' <= #[trigger] s[k] <= '9' {
            1int
        } else {
            0
        }) + (if exists|k: int| 0 <= k < i && is_punct(#[trigger] s[k]) {
            1int
        } else {
            0
        }),
        i == s.len() ==> class_count(s) == (if exists|k: int|
            0 <= k < i && 'a' <= #[trigger] s[k] <= 'z' {
            1int
        } else {
            0
        }) + (if exists|k: int| 0 <= k < i && 'A' <= #[trigger] s[k] <= 'Z' {
            1int
        } else {
            0
        }) + (if exists|k: int| 0 <= k < i && '0' <= #[trigger] s[k] <= '9' {
            1int
        } else {
            0
        }) + (if exists|k: int| 0 <= k < i && is_punct(#[trigger] s[k]) {
            1int
        } else {
            0
        }),
{
}

} // verus!
