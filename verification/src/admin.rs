use vstd::prelude::*;

verus! {

/// Guards the administrative surface: a caller is an administrator exactly
/// when it presents the configured token.
#[derive(Clone, Debug, PartialEq)]
pub struct AdminInterceptor {
    pub admin_token: String,
}

impl AdminInterceptor {
    /// Remembers the configured administrator token.
    pub fn new(admin_token: String) -> (r: Self)
        ensures
            r.admin_token == admin_token,
    {
        Self { admin_token }
    }

    /// Whether the presented bearer token is the administrator's.
    pub fn is_admin(&self, bearer_token: String) -> (r: bool)
        ensures
            r == (self.admin_token@ == bearer_token@),
    {
        self.admin_token == bearer_token
    }
}

/// The first space of a header, if it has one.
pub open spec fn first_space(s: Seq<char>) -> Option<int> {
    if exists|i: int| 0 <= i < s.len() && s[i] == ' ' {
        Some(choose|i: int| 0 <= i < s.len() && s[i] == ' ' && (forall|j: int|
            0 <= j < i ==> s[j] != ' '))
    } else {
        None
    }
}

/// The token after the scheme word of an authorization header: everything
/// past the first space, or nothing when the header carries no space.
pub fn bearer_token(header: &str) -> (r: Option<String>)
    ensures
        match r {
            Some(t) => exists|i: int|
                {
                    &&& 0 <= i < header@.len()
                    &&& header@[i] == ' '
                    &&& (forall|j: int| 0 <= j < i ==> header@[j] != ' ')
                    &&& t@ == header@.subrange(i + 1, header@.len() as int)
                },
            None => forall|j: int| 0 <= j < header@.len() ==> header@[j] != ' ',
        },
{
    let len = header.unicode_len();
    let mut i: usize = 0;
    while i < len
        invariant
            i <= len,
            len == header@.len(),
            forall|j: int| 0 <= j < i ==> header@[j] != ' ',
        decreases len - i,
    {
        if header.get_char(i) == ' ' {
            let rest = header.substring_char(i + 1, len);
            return Some(rest.to_owned());
        }
        i += 1;
    }
    None
}

/// Attaches a fixed caller identity where no authorization header came in.
#[derive(Clone, Debug, PartialEq)]
pub struct MockIdTokenSetter {
    pub default_user_id: String,
}

impl MockIdTokenSetter {
    /// Remembers the identity to hand unauthenticated callers.
    pub fn new(default_user_id: String) -> (r: Self)
        ensures
            r.default_user_id == default_user_id,
    {
        Self { default_user_id }
    }
}

} // verus!
