//! User accounts and their plain-text profile.
use vstd::prelude::*;
use vstd::string::*;

verus! {

/// A user account.
#[derive(Debug, Clone, PartialEq, Eq)]
pub struct User {
    id: u64,
    username: String,
    email: String,
}

/// The decimal digits of `n`, most significant first.
pub open spec fn decimal(n: nat) -> Seq<char>
    decreases n,
{
    if n < 10 {
        seq![digit_char(n)]
    } else {
        decimal(n / 10).push(digit_char(n % 10))
    }
}

pub open spec fn digit_char(d: nat) -> char {
    if d == 0 { '0' }
    else if d == 1 { '1' }
    else if d == 2 { '2' }
    else if d == 3 { '3' }
    else if d == 4 { '4' }
    else if d == 5 { '5' }
    else if d == 6 { '6' }
    else if d == 7 { '7' }
    else if d == 8 { '8' }
    else { '9' }
}

fn digit_str(d: u64) -> (r: &'static str)
    requires
        d < 10,
    ensures
        r@ == seq![digit_char(d as nat)],
{
    proof {
        reveal_strlit("0");
        reveal_strlit("1");
        reveal_strlit("2");
        reveal_strlit("3");
        reveal_strlit("4");
        reveal_strlit("5");
        reveal_strlit("6");
        reveal_strlit("7");
        reveal_strlit("8");
        reveal_strlit("9");
    }
    let r = if d == 0 { "0" }
    else if d == 1 { "1" }
    else if d == 2 { "2" }
    else if d == 3 { "3" }
    else if d == 4 { "4" }
    else if d == 5 { "5" }
    else if d == 6 { "6" }
    else if d == 7 { "7" }
    else if d == 8 { "8" }
    else { "9" };
    assert(r@ =~= seq![digit_char(d as nat)]);
    r
}

/// `n` written in decimal.
pub fn decimal_string(n: u64) -> (r: String)
    ensures
        r@ == decimal(n as nat),
    decreases n,
{
    if n < 10 {
        String::from_str(digit_str(n))
    } else {
        let head = decimal_string(n / 10);
        let r = head.concat(digit_str(n % 10));
        assert(r@ =~= decimal((n / 10) as nat).push(digit_char((n % 10) as nat)));
        r
    }
}

impl User {
    pub fn new(id: u64, username: &str, email: &str) -> (r: User)
        ensures
            r.id_spec() == id,
            r.username_spec() == username@,
            r.email_spec() == email@,
    {
        User { id, username: String::from_str(username), email: String::from_str(email) }
    }

    pub closed spec fn id_spec(&self) -> u64 {
        self.id
    }

    pub closed spec fn username_spec(&self) -> Seq<char> {
        self.username@
    }

    pub closed spec fn email_spec(&self) -> Seq<char> {
        self.email@
    }

    /// Unique identifier for the user.
    pub fn id(&self) -> (r: u64)
        ensures
            r == self.id_spec(),
    {
        self.id
    }

    /// Username chosen by the user.
    pub fn username(&self) -> (r: &str)
        ensures
            r@ == self.username_spec(),
    {
        self.username.as_str()
    }

    /// Email address associated with the account.
    pub fn email(&self) -> (r: &str)
        ensures
            r@ == self.email_spec(),
    {
        self.email.as_str()
    }
}

/// The profile text of a user: its number, username and email on three lines.
pub open spec fn profile_text(u: User) -> Seq<char> {
    "User #"@ + decimal(u.id_spec() as nat) + "\nusername: "@ + u.username_spec() + "\nemail: "@
        + u.email_spec()
}

/// Renders a user profile as plain text.
pub fn render_user_profile(user: &User) -> (r: String)
    ensures
        r@ == profile_text(*user),
{
    let mut out = String::from_str("User #");
    out.append(decimal_string(user.id()).as_str());
    out.append("\nusername: ");
    out.append(user.username());
    out.append("\nemail: ");
    out.append(user.email());
    out
}

} // verus!
