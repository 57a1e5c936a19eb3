use vstd::prelude::*;

verus! {

/// A character an account ID may contain.
pub open spec fn is_account_id_char(c: char) -> bool {
    ||| 'a' <= c <= 'z'
    ||| '0' <= c <= '9'
    ||| c == '-'
    ||| c == '_'
    ||| c == '.'
}

/// A separator character: allowed only between runs of letters and digits.
pub open spec fn is_separator_char(c: char) -> bool {
    c == '-' || c == '_' || c == '.'
}

/// The account ID grammar: 2 to 64 characters, lowercase letters, digits and
/// the separators '-', '_' and '.', with no leading, trailing or doubled
/// separator.
pub open spec fn valid_account_id(s: Seq<char>) -> bool {
    &&& 2 <= s.len() <= 64
    &&& forall|i: int| 0 <= i < s.len() ==> is_account_id_char(#[trigger] s[i])
    &&& !is_separator_char(s[0])
    &&& !is_separator_char(s[s.len() - 1])
    &&& forall|i: int|
        0 < i < s.len() ==> !(is_separator_char(#[trigger] s[i]) && is_separator_char(s[i - 1]))
}

/// Relies on near_account_id::AccountId::validate: it accepts exactly the
/// strings of 2 to 64 bytes made of lowercase letters, digits and the
/// separators '-', '_' and '.', where no separator starts or ends the ID or
/// follows another separator.
#[verifier::external_body]
fn validate_account_id_str(s: &str) -> (r: bool)
    ensures
        r == valid_account_id(s@),
{
    near_account_id::AccountId::validate(s).is_ok()
}

/// A named principal on the network. Every value of this type holds an ID
/// that passed validation.
#[derive(Debug, Hash, PartialEq, Eq)]
pub struct AccountId {
    id: String,
}

impl View for AccountId {
    type V = Seq<char>;

    closed spec fn view(&self) -> Seq<char> {
        self.id@
    }
}

impl AccountId {
    #[verifier::type_invariant]
    pub closed spec fn wf(self) -> bool {
        valid_account_id(self.id@)
    }

    /// Accepts the string exactly when it is a valid account ID.
    pub fn new(id: String) -> (r: Option<AccountId>)
        ensures
            r matches Some(a) ==> a@ == id@ && valid_account_id(id@),
            r is None <==> !valid_account_id(id@),
    {
        if validate_account_id_str(id.as_str()) {
            Some(AccountId { id })
        } else {
            None
        }
    }

    pub fn as_str(&self) -> (r: &str)
        ensures
            r@ == self@,
    {
        self.id.as_str()
    }

    /// Every held ID is valid; callers may bring that fact into scope here.
    pub fn assert_valid(&self)
        ensures
            valid_account_id(self@),
    {
        proof {
            use_type_invariant(self);
        }
    }
}

impl Clone for AccountId {
    fn clone(&self) -> (r: Self)
        ensures
            r@ == self@,
    {
        proof {
            use_type_invariant(self);
        }
        AccountId { id: self.id.clone() }
    }
}

} // verus!
