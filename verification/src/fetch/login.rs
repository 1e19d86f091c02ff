//! The account a search is made under, and the form in which it is kept
//! between runs.
//!
//! Stored credentials are one byte that tells where the password begins,
//! then the user name and the password, each as lower-case hex digits.

use vstd::prelude::*;
use vstd::slice::slice_subrange;
use vstd::utf8::decode_utf8;
use vstd::utf8::encode_utf8;
use vstd::utf8::encode_utf8_decode_utf8;
use vstd::utf8::encode_utf8_valid_utf8;
use vstd::utf8::valid_utf8;

verus! {

/// `hex::FromHexError`.  Nothing is read from it.
#[verifier::external_type_specification]
#[verifier::external_body]
pub struct ExFromHexError(hex::FromHexError);

/// `FromUtf8Error` of the standard library.  Nothing is read from it.
#[verifier::external_type_specification]
#[verifier::external_body]
pub struct ExFromUtf8Error(std::string::FromUtf8Error);

/// The lower-case hex digit of `n`, for `n < 16`, as a byte.
pub open spec fn hex_digit(n: int) -> u8 {
    if n < 10 {
        (48 + n) as u8
    } else {
        (87 + n) as u8
    }
}

/// Two hex digits for each byte, the high half first.
pub open spec fn hex_encoded(data: Seq<u8>) -> Seq<u8> {
    Seq::new(
        2 * data.len(),
        |i: int|
            if i % 2 == 0 {
                hex_digit(data[i / 2] as int / 16)
            } else {
                hex_digit(data[i / 2] as int % 16)
            },
    )
}

/// What a hex digit stands for.  Both cases of the letters count.
pub open spec fn hex_value(c: u8) -> Option<int> {
    if 48 <= c <= 57 {
        Some(c - 48)
    } else if 97 <= c <= 102 {
        Some(c - 87)
    } else if 65 <= c <= 70 {
        Some(c - 55)
    } else {
        None
    }
}

/// Whether `text` is an even number of hex digits.
pub open spec fn is_hex(text: Seq<u8>) -> bool {
    &&& text.len() % 2 == 0
    &&& forall|i: int| 0 <= i < text.len() ==> hex_value(#[trigger] text[i]) is Some
}

/// The bytes that the hex digits of `text` stand for.
pub open spec fn hex_decoded(text: Seq<u8>) -> Seq<u8> {
    Seq::new(
        text.len() / 2,
        |i: int| (hex_value(text[2 * i])->0 * 16 + hex_value(text[2 * i + 1])->0) as u8,
    )
}

/// `hex::encode`, with the digits taken as bytes: every byte of `data`
/// becomes two lower-case hex digits.
#[verifier::external_body]
fn hex_encode(data: &[u8]) -> (digits: Vec<u8>)
    ensures
        digits@ == hex_encoded(data@),
{
    hex::encode(data).into_bytes()
}

/// `hex::decode`: succeeds exactly on an even number of hex digits, and then
/// gives one byte for each two of them.
#[verifier::external_body]
fn hex_decode(text: &[u8]) -> (r: Result<Vec<u8>, hex::FromHexError>)
    ensures
        r is Ok <==> is_hex(text@),
        r is Ok ==> r->Ok_0@ == hex_decoded(text@),
{
    hex::decode(text)
}

/// `String::from_utf8` of the standard library: succeeds exactly on valid
/// UTF-8, and then gives the text that the bytes encode.
#[verifier::external_body]
fn text_from_utf8(bytes: Vec<u8>) -> (r: Result<String, std::string::FromUtf8Error>)
    ensures
        r is Ok <==> valid_utf8(bytes@),
        r is Ok ==> r->Ok_0@ == decode_utf8(bytes@),
{
    String::from_utf8(bytes)
}

/// What a [`Login`] stands for in contracts.
pub struct LoginView {
    pub username: Seq<char>,
    pub password: Seq<char>,
}

/// The account a search is made under.
#[derive(PartialEq, Debug)]
pub struct Login {
    username: String,
    password: String,
}

/// A user name and a password, as a request's authorization takes them.
#[derive(PartialEq, Debug)]
pub struct Basic {
    pub username: String,
    pub password: Option<String>,
}

impl View for Login {
    type V = LoginView;

    closed spec fn view(&self) -> LoginView {
        LoginView { username: self.username@, password: self.password@ }
    }
}

/// The text that hex digits stand for, where they stand for any.
pub open spec fn text_in(digits: Seq<u8>) -> Option<Seq<char>> {
    if is_hex(digits) && valid_utf8(hex_decoded(digits)) {
        Some(decode_utf8(hex_decoded(digits)))
    } else {
        None
    }
}

/// The credentials stored in `content`, where it holds any.
///
/// The content has an odd length of at least 5.  Its first byte is the index
/// at which the password begins; that index is at least 1 and below half the
/// number of bytes behind the first.  Both parts are hex digits of valid
/// UTF-8.
pub open spec fn credentials_in(content: Seq<u8>) -> Option<LoginView> {
    let sep = content[0] as int;
    if content.len() < 5 || content.len() % 2 != 1 {
        None
    } else if sep < 1 || sep >= (content.len() - 1) / 2 {
        None
    } else {
        match (
            text_in(content.subrange(1, sep)),
            text_in(content.subrange(sep, content.len() as int)),
        ) {
            (Some(username), Some(password)) => Some(LoginView { username, password }),
            _ => None,
        }
    }
}

/// The stored form of credentials.  The first byte holds the lowest eight
/// bits of the index at which the password begins.
pub open spec fn stored(login: LoginView) -> Seq<u8> {
    seq![((2 * encode_utf8(login.username).len() + 1) % 256) as u8] + hex_encoded(
        encode_utf8(login.username),
    ) + hex_encoded(encode_utf8(login.password))
}

/// Hex digits stand for the bytes they were written for.
pub proof fn lemma_hex_round_trip(data: Seq<u8>)
    ensures
        is_hex(hex_encoded(data)),
        hex_decoded(hex_encoded(data)) == data,
{
    let digits = hex_encoded(data);
    assert forall|i: int| 0 <= i < digits.len() implies hex_value(#[trigger] digits[i]) is Some by {
        let byte = data[i / 2] as int;
        assert(0 <= byte / 16 < 16 && 0 <= byte % 16 < 16);
    }
    assert(hex_decoded(digits) =~= data) by {
        assert forall|i: int| 0 <= i < data.len() implies hex_decoded(digits)[i] == data[i] by {
            let byte = data[i] as int;
            assert((2 * i) / 2 == i && (2 * i + 1) / 2 == i);
            assert((2 * i) % 2 == 0 && (2 * i + 1) % 2 == 1);
            assert(digits[2 * i] == hex_digit(byte / 16));
            assert(digits[2 * i + 1] == hex_digit(byte % 16));
            assert(0 <= byte / 16 < 16 && 0 <= byte % 16 < 16);
            assert(hex_value(hex_digit(byte / 16)) == Some(byte / 16));
            assert(hex_value(hex_digit(byte % 16)) == Some(byte % 16));
            assert(byte / 16 * 16 + byte % 16 == byte);
        }
    }
}

/// Stored credentials are read again as they were, provided that the user
/// name has fewer than 128 bytes and the password at least two bytes more
/// than the user name.  Others are stored in a form that is not read.
pub proof fn lemma_stored_credentials_load(login: LoginView)
    requires
        encode_utf8(login.username).len() < 128,
        encode_utf8(login.username).len() + 1 < encode_utf8(login.password).len(),
    ensures
        credentials_in(stored(login)) == Some(login),
{
    let name = encode_utf8(login.username);
    let word = encode_utf8(login.password);
    let content = stored(login);
    let sep = 2 * name.len() + 1;
    lemma_hex_round_trip(name);
    lemma_hex_round_trip(word);
    encode_utf8_valid_utf8(login.username);
    encode_utf8_valid_utf8(login.password);
    encode_utf8_decode_utf8(login.username);
    encode_utf8_decode_utf8(login.password);
    assert(content.len() == 1 + 2 * name.len() + 2 * word.len());
    assert(content[0] == sep);
    assert(content.subrange(1, sep as int) =~= hex_encoded(name));
    assert(content.subrange(sep as int, content.len() as int) =~= hex_encoded(word));
}

fn decode_text(digits: &[u8]) -> (text: Option<String>)
    ensures
        match text {
            Some(t) => text_in(digits@) == Some(t@),
            None => text_in(digits@) is None,
        },
{
    match hex_decode(digits) {
        Ok(bytes) => match text_from_utf8(bytes) {
            Ok(text) => Some(text),
            Err(_) => None,
        },
        Err(_) => None,
    }
}

impl Login {
    /// The credentials as a request's authorization takes them.
    pub fn to_basic(&self) -> (basic: Basic)
        ensures
            basic.username@ == self@.username,
            basic.password is Some,
            basic.password->0@ == self@.password,
    {
        Basic { username: self.username.clone(), password: Some(self.password.clone()) }
    }

    /// Reads stored credentials.
    pub fn load_from_vec(content: Vec<u8>) -> (login: Option<Login>)
        ensures
            match login {
                Some(l) => credentials_in(content@) == Some(l@),
                None => credentials_in(content@) is None,
            },
    {
        if content.len() < 5 {
            return None;
        }
        if content.len() % 2 != 1 {
            return None;
        }
        let sep: usize = content[0] as usize;
        if sep >= 1 && sep < (content.len() - 1) / 2 {
            let username = decode_text(slice_subrange(content.as_slice(), 1, sep));
            let password = decode_text(slice_subrange(content.as_slice(), sep, content.len()));
            match (username, password) {
                (Some(username), Some(password)) => Some(Login { username, password }),
                _ => None,
            }
        } else {
            None
        }
    }

    /// Appends the stored form of the credentials to `contents`.
    pub fn save_to_temp(&self, contents: &mut Vec<u8>)
        ensures
            final(contents)@ == old(contents)@ + stored(self@),
    {
        let name = self.username.as_str().as_bytes();
        let low: usize = name.len() % 128;
        let sep: u8 = (2 * low + 1) as u8;
        proof {
            assert((2 * name.len() + 1) % 256 == 2 * (name.len() % 128) + 1) by (nonlinear_arith);
        }
        contents.push(sep);
        let mut digits = hex_encode(name);
        contents.append(&mut digits);
        let mut digits = hex_encode(self.password.as_str().as_bytes());
        contents.append(&mut digits);
        proof {
            assert(final(contents)@ =~= old(contents)@ + stored(self@));
        }
    }
}

/// The account of this user name and password.
pub fn new_login(username: String, password: String) -> (login: Login)
    ensures
        login@ == (LoginView { username: username@, password: password@ }),
{
    Login { username, password }
}

} // verus!
