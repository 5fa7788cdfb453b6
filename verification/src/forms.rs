//! The checks that the client's login and registration forms apply before
//! they contact the server.
use crate::text::has_char;
use vstd::prelude::*;
use vstd::string::*;

verus! {

/// A form field.
#[derive(Debug, Clone, Copy, PartialEq, Eq, Structural)]
pub enum FormField {
    UserName,
    Password,
    PasswordAgain,
}

/// Why a form is not submitted.
#[derive(Debug, Clone, Copy, PartialEq, Eq, Structural)]
pub enum FormProblem {
    MissingUserName,
    MissingPassword,
    MissingPasswordAgain,
    PasswordsDiffer,
    PasswordTooShort,
    PasswordLacksSymbol,
    PasswordLacksUpperCase,
    PasswordLacksDigit,
}

/// The warning shown for a problem.
pub open spec fn problem_text(problem: FormProblem) -> Seq<char> {
    match problem {
        FormProblem::MissingUserName => "You should input the user name."@,
        FormProblem::MissingPassword => "You should input the password."@,
        FormProblem::MissingPasswordAgain => "You should input the password again."@,
        FormProblem::PasswordsDiffer => "The inputed password is different for the two times."@,
        FormProblem::PasswordTooShort => "The length of password should be more than 8."@,
        FormProblem::PasswordLacksSymbol => "The password should be contains character."@,
        FormProblem::PasswordLacksUpperCase => "The password should be contains upper-case letters."@,
        FormProblem::PasswordLacksDigit => "The password should be contains number."@,
    }
}

/// The field that receives the focus for a problem.
pub open spec fn problem_field(problem: FormProblem) -> FormField {
    match problem {
        FormProblem::MissingUserName => FormField::UserName,
        FormProblem::MissingPasswordAgain => FormField::PasswordAgain,
        _ => FormField::Password,
    }
}

impl FormProblem {
    /// The warning shown for this problem.
    pub fn message(&self) -> (text: String)
        ensures
            text@ == problem_text(*self),
    {
        match self {
            FormProblem::MissingUserName => String::from_str("You should input the user name."),
            FormProblem::MissingPassword => String::from_str("You should input the password."),
            FormProblem::MissingPasswordAgain => String::from_str(
                "You should input the password again.",
            ),
            FormProblem::PasswordsDiffer => String::from_str(
                "The inputed password is different for the two times.",
            ),
            FormProblem::PasswordTooShort => String::from_str(
                "The length of password should be more than 8.",
            ),
            FormProblem::PasswordLacksSymbol => String::from_str(
                "The password should be contains character.",
            ),
            FormProblem::PasswordLacksUpperCase => String::from_str(
                "The password should be contains upper-case letters.",
            ),
            FormProblem::PasswordLacksDigit => String::from_str(
                "The password should be contains number.",
            ),
        }
    }

    /// The field that receives the focus for this problem.
    pub fn field(&self) -> (f: FormField)
        ensures
            f == problem_field(*self),
    {
        match self {
            FormProblem::MissingUserName => FormField::UserName,
            FormProblem::MissingPasswordAgain => FormField::PasswordAgain,
            _ => FormField::Password,
        }
    }
}

/// The login form: both fields must be filled in.
pub open spec fn login_form_check(user_name: Seq<char>, password: Seq<char>) -> Result<(), FormProblem> {
    if user_name.len() == 0 {
        Err(FormProblem::MissingUserName)
    } else if password.len() == 0 {
        Err(FormProblem::MissingPassword)
    } else {
        Ok(())
    }
}

/// Checks the login form.
pub fn check_login_form(user_name: &str, password: &str) -> (r: Result<(), FormProblem>)
    ensures
        r == login_form_check(user_name@, password@),
{
    if user_name.is_empty() {
        Err(FormProblem::MissingUserName)
    } else if password.is_empty() {
        Err(FormProblem::MissingPassword)
    } else {
        Ok(())
    }
}

/// Whether some character of `s` occurs in `set`.
pub open spec fn uses_any(s: Seq<char>, set: Seq<char>) -> bool {
    exists|i: int| 0 <= i < s.len() && set.contains(#[trigger] s[i])
}

fn uses_any_of(s: &str, set: &str) -> (found: bool)
    ensures
        found == uses_any(s@, set@),
{
    let cs = crate::text::chars_of(s);
    let mut i: usize = 0;
    while i < cs.len()
        invariant
            i <= cs.len(),
            cs@ == s@,
            forall|j: int| 0 <= j < i ==> !set@.contains(#[trigger] s@[j]),
        decreases cs.len() - i,
    {
        if has_char(set, cs[i]) {
            assert(set@.contains(s@[i as int]));
            return true;
        }
        i += 1;
    }
    false
}

/// The symbols of which a password needs one.
pub open spec fn password_symbols() -> Seq<char> {
    "~!@#$%^&*()_+`-={}|[]\\:\";',./<>?"@
}

/// The registration form: all fields filled in, the password typed twice
/// alike, at least eight bytes long, with a symbol, an upper-case letter and a
/// digit.
pub open spec fn registration_check(user_name: Seq<char>, password: Seq<char>, password_again: Seq<char>) -> Result<(), FormProblem> {
    if user_name.len() == 0 {
        Err(FormProblem::MissingUserName)
    } else if password.len() == 0 {
        Err(FormProblem::MissingPassword)
    } else if password_again.len() == 0 {
        Err(FormProblem::MissingPasswordAgain)
    } else if password != password_again {
        Err(FormProblem::PasswordsDiffer)
    } else if vstd::utf8::encode_utf8(password_again).len() < 8 {
        Err(FormProblem::PasswordTooShort)
    } else if !uses_any(password, password_symbols()) {
        Err(FormProblem::PasswordLacksSymbol)
    } else if !uses_any(password, "ABCDEFGHIJKLMNOPQRSTUVWXYZ"@) {
        Err(FormProblem::PasswordLacksUpperCase)
    } else if !uses_any(password, "1234567890"@) {
        Err(FormProblem::PasswordLacksDigit)
    } else {
        Ok(())
    }
}

/// Checks the registration form.
pub fn check_registration_form(user_name: &str, password: &str, password_again: &str) -> (r: Result<(), FormProblem>)
    ensures
        r == registration_check(user_name@, password@, password_again@),
{
    if user_name.is_empty() {
        return Err(FormProblem::MissingUserName);
    }
    if password.is_empty() {
        return Err(FormProblem::MissingPassword);
    }
    if password_again.is_empty() {
        return Err(FormProblem::MissingPasswordAgain);
    }
    if !crate::text::same_text(password, password_again) {
        return Err(FormProblem::PasswordsDiffer);
    }
    if password_again.as_bytes().len() < 8 {
        return Err(FormProblem::PasswordTooShort);
    }
    if !uses_any_of(password, "~!@#$%^&*()_+`-={}|[]\\:\";',./<>?") {
        return Err(FormProblem::PasswordLacksSymbol);
    }
    if !uses_any_of(password, "ABCDEFGHIJKLMNOPQRSTUVWXYZ") {
        return Err(FormProblem::PasswordLacksUpperCase);
    }
    if !uses_any_of(password, "1234567890") {
        return Err(FormProblem::PasswordLacksDigit);
    }
    Ok(())
}

/// Whether some character of `s` lies in the range `lo..=hi`.
pub open spec fn has_char_in(s: Seq<char>, lo: char, hi: char) -> bool {
    exists|i: int| 0 <= i < s.len() && lo <= #[trigger] s[i] <= hi
}

/// The digit rule of the registration form: a password with an ASCII digit
/// `0`..`9` is never refused for lacking one, nor one with a letter `A`..`Z`
/// for lacking an upper-case letter, and a form that passes has a
/// password with such a digit and an upper-case letter `A`..`Z`.
pub proof fn lemma_registration_digit_rule(
    user_name: Seq<char>,
    password: Seq<char>,
    password_again: Seq<char>,
)
    ensures
        has_char_in(password, '0', '9') ==> registration_check(user_name, password, password_again)
            != Err::<(), FormProblem>(FormProblem::PasswordLacksDigit),
        has_char_in(password, 'A', 'Z') ==> registration_check(user_name, password, password_again)
            != Err::<(), FormProblem>(FormProblem::PasswordLacksUpperCase),
        registration_check(user_name, password, password_again) is Ok ==> has_char_in(
            password,
            '0',
            '9',
        ) && has_char_in(password, 'A', 'Z'),
{
    reveal_strlit("1234567890");
    reveal_strlit("ABCDEFGHIJKLMNOPQRSTUVWXYZ");
    let digits = "1234567890"@;
    let capitals = "ABCDEFGHIJKLMNOPQRSTUVWXYZ"@;
    if has_char_in(password, '0', '9') {
        let i = choose|i: int| 0 <= i < password.len() && '0' <= #[trigger] password[i] <= '9';
        let c = password[i];
        let v = c as u32;
        assert(48 <= v <= 57);
        let j: int = if v == 48 { 9 } else { v - 49 };
        assert(digits[j] == c);
        assert(digits.contains(c));
        assert(uses_any(password, digits));
    }
    if has_char_in(password, 'A', 'Z') {
        let i = choose|i: int| 0 <= i < password.len() && 'A' <= #[trigger] password[i] <= 'Z';
        let c = password[i];
        let v = c as u32;
        assert(65 <= v <= 90);
        let j: int = v - 65;
        assert(capitals[j] == c);
        assert(capitals.contains(c));
        assert(uses_any(password, capitals));
    }
    if registration_check(user_name, password, password_again) is Ok {
        assert(uses_any(password, digits));
        let i = choose|i: int| 0 <= i < password.len() && digits.contains(#[trigger] password[i]);
        let j = choose|j: int| 0 <= j < digits.len() && digits[j] == password[i];
        assert('0' <= digits[j] <= '9');
        assert(uses_any(password, capitals));
        let k = choose|k: int| 0 <= k < password.len() && capitals.contains(#[trigger] password[k]);
        let m = choose|m: int| 0 <= m < capitals.len() && capitals[m] == password[k];
        assert('A' <= capitals[m] <= 'Z');
    }
}

} // verus!
