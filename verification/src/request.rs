//! What a run asks the coordinator: which host, at which address, with which
//! credentials.

use vstd::prelude::*;
use vstd::string::*;
use vstd::utf8::encode_utf8;
use crate::record::ReportError;
use crate::text::{decimal, decimal_text, fields};

verus! {

/// The user that the coordinator is asked as.
pub open spec fn user_name() -> Seq<char> {
    "root"@
}

/// The address at which the coordinator at `host` lists its backends.
pub open spec fn coordinator_url_of(host: Seq<char>, port: u16) -> Seq<char> {
    "http://"@ + host + ":"@ + decimal_text(port as nat) + "/api/show_proc/?path=//backends"@
}

/// The address at which the coordinator at `host` lists its backends.
pub fn coordinator_url(host: &str, port: u16) -> (url: String)
    ensures
        url@ == coordinator_url_of(host@, port),
{
    let digits = decimal(port as u128);
    String::from_str("http://").concat(host).concat(":").concat(digits.as_str()).concat(
        "/api/show_proc/?path=//backends",
    )
}

/// The hosts that a comma-separated list names: its fields, or
/// `MissingArgument` where the list is empty.
pub open spec fn hosts_of(list: Seq<char>) -> Result<Seq<Seq<char>>, ReportError> {
    if list.len() == 0 {
        Err(ReportError::MissingArgument)
    } else {
        Ok(fields(list, ','))
    }
}

/// The hosts that the comma-separated `list` names.
pub fn host_list(list: &str) -> (out: Result<Vec<String>, ReportError>)
    ensures
        match out {
            Ok(hosts) => hosts_of(list@) == Ok::<_, ReportError>(hosts.deep_view()),
            Err(error) => hosts_of(list@) == Err::<Seq<Seq<char>>, _>(error),
        },
{
    if list.is_empty() {
        Err(ReportError::MissingArgument)
    } else {
        Ok(split_fields_of(list))
    }
}

/// The fields of a comma-separated list, as texts.
fn split_fields_of(list: &str) -> (hosts: Vec<String>)
    ensures
        hosts.deep_view() == fields(list@, ','),
{
    let n = list.unicode_len();
    let mut hosts: Vec<String> = Vec::new();
    let mut start: usize = 0;
    let mut i: usize = 0;
    assert(list@.subrange(0, 0) =~= Seq::<char>::empty());
    while i < n
        invariant
            start <= i <= n,
            n == list@.len(),
            hosts.deep_view().push(list@.subrange(start as int, i as int)) == fields(
                list@.take(i as int),
                ',',
            ),
        decreases n - i,
    {
        let ghost before = fields(list@.take(i as int), ',');
        proof {
            assert(list@.take(i + 1).drop_last() =~= list@.take(i as int));
        }
        if list.get_char(i) == ',' {
            hosts.push(String::from_str(list.substring_char(start, i)));
            start = i + 1;
            assert(list@.subrange(start as int, i + 1) =~= Seq::<char>::empty());
            assert(hosts.deep_view().push(list@.subrange(start as int, i + 1)) =~= before.push(
                Seq::<char>::empty(),
            ));
        } else {
            assert(list@.subrange(start as int, i + 1) =~= before.last().push(list@[i as int]));
            assert(hosts.deep_view().push(list@.subrange(start as int, i + 1))
                =~= before.drop_last().push(before.last().push(list@[i as int])));
        }
        i = i + 1;
    }
    hosts.push(String::from_str(list.substring_char(start, n)));
    assert(list@.take(n as int) =~= list@);
    hosts
}

/// The generator of the `rand` crate that a host is drawn with. It can be made
/// from a seed, and nothing of its state is known here.
#[verifier::external_type_specification]
#[verifier::external_body]
pub struct ExStdRng(rand::rngs::StdRng);

/// Picks one of `hosts` with `rand::seq::SliceRandom::choose`, drawing from
/// `rng`: nothing of an empty list, else one of its items. Which one is not
/// said, nor what becomes of `rng`.
#[verifier::external_body]
fn choose_at_random<'a>(hosts: &'a Vec<String>, rng: &mut rand::rngs::StdRng) -> (host: Option<
    &'a String,
>)
    ensures
        hosts.len() == 0 ==> host is None,
        hosts.len() > 0 ==> host is Some && hosts@.contains(*host.unwrap()),
{
    rand::seq::SliceRandom::choose(hosts.as_slice(), rng)
}

/// One of `hosts`, drawn with `rng`, or `NoHostsSelected` where there is none.
pub fn choose_host(hosts: &Vec<String>, rng: &mut rand::rngs::StdRng) -> (out: Result<
    String,
    ReportError,
>)
    ensures
        hosts.len() == 0 <==> out == Err::<String, _>(ReportError::NoHostsSelected),
        hosts.len() > 0 <==> out is Ok,
        out matches Ok(host) ==> hosts.deep_view().contains(host@),
{
    match choose_at_random(hosts, rng) {
        Some(host) => {
            proof {
                let i = choose|i: int| 0 <= i < hosts@.len() && hosts@[i] == *host;
                assert(hosts.deep_view()[i] == host@);
            }
            Ok(host.clone())
        },
        None => Err(ReportError::NoHostsSelected),
    }
}

/// The longest credentials, in bytes, that are encoded.
pub const MAX_CREDENTIAL_BYTES: usize = 0x3FFF_FFFF;

/// The text that the `base64` crate's standard engine, with the standard
/// alphabet and padding, gives for `bytes`.
pub uninterp spec fn base64_of(bytes: Seq<u8>) -> Seq<char>;

/// Encodes `bytes` with `Engine::encode` of `base64`'s
/// `engine::general_purpose::STANDARD`. The call panics where the encoded
/// length does not fit in `usize`, which `requires` leaves out.
#[verifier::external_body]
fn base64_encode(bytes: &[u8]) -> (text: String)
    requires
        bytes@.len() <= MAX_CREDENTIAL_BYTES,
    ensures
        text@ == base64_of(bytes@),
{
    base64::Engine::encode(&base64::engine::general_purpose::STANDARD, bytes)
}

/// The credentials of the user with `password`.
pub open spec fn credentials_of(password: Seq<char>) -> Seq<char> {
    user_name() + ":"@ + password
}

/// The value of the `Authorization` header for `password`: the word `Basic`
/// and the credentials, encoded.
pub open spec fn authorization_of(password: Seq<char>) -> Seq<char> {
    "Basic "@ + base64_of(encode_utf8(credentials_of(password)))
}

/// The value of the `Authorization` header for `password`, or `None` where the
/// credentials are longer than `MAX_CREDENTIAL_BYTES`.
pub fn basic_authorization(password: &str) -> (header: Option<String>)
    ensures
        header is Some <==> encode_utf8(credentials_of(password@)).len() <= MAX_CREDENTIAL_BYTES,
        header matches Some(value) ==> value@ == authorization_of(password@),
{
    let credentials = String::from_str("root").concat(":").concat(password);
    let bytes = credentials.as_str().as_bytes();
    if bytes.len() > MAX_CREDENTIAL_BYTES {
        return None;
    }
    let encoded = base64_encode(bytes);
    Some(String::from_str("Basic ").concat(encoded.as_str()))
}

} // verus!
