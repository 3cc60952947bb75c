//! The screens of the on-device interface: what each does with a frame's
//! buttons, and what it draws.
use vstd::prelude::*;

pub mod confirm;
pub mod home;
pub mod message;
pub mod pairing;
pub mod pin;
pub mod unpairing;

verus! {

/// How much of an id is shown.
pub const SHORT_ID: usize = 8;

/// The label of a client: its name, or else its address, or else the start of
/// its id.
pub open spec fn label_of(
    name: Option<Seq<char>>,
    address: Option<Seq<char>>,
    id: Seq<char>,
) -> Seq<char> {
    match name {
        Some(n) => n,
        None => match address {
            Some(a) => a,
            None => if id.len() > SHORT_ID {
                id.take(SHORT_ID as int)
            } else {
                id
            },
        },
    }
}

/// The view of a text that may be absent.
pub open spec fn str_view(t: Option<&str>) -> Option<Seq<char>> {
    match t {
        Some(s) => Some(s@),
        None => None,
    }
}

/// The view of a text that may be absent.
pub open spec fn string_view(t: Option<String>) -> Option<Seq<char>> {
    match t {
        Some(s) => Some(s@),
        None => None,
    }
}

/// Label a client. Streaming clients hardly ever send a name, and many send
/// the same id, while on a home network the address tells them apart; so the
/// address comes before the id. Ids are cut between characters, and one that
/// is short enough is shown whole.
pub fn client_label(name: Option<&str>, address: Option<&str>, id: &str) -> (label: String)
    ensures
        label@ == label_of(str_view(name), str_view(address), id@),
{
    match name {
        Some(name) => String::from_str(name),
        None => match address {
            Some(address) => String::from_str(address),
            None => {
                if id.unicode_len() > SHORT_ID {
                    let head: &str = id.substring_char(0, SHORT_ID);
                    assert(head@ =~= id@.take(SHORT_ID as int));
                    String::from_str(head)
                } else {
                    String::from_str(id)
                }
            },
        },
    }
}

/// A label is never empty where what it is made from is not.
pub proof fn law_a_label_says_something(
    name: Option<Seq<char>>,
    address: Option<Seq<char>>,
    id: Seq<char>,
)
    requires
        name matches Some(n) ==> n.len() > 0,
        address matches Some(a) ==> a.len() > 0,
        id.len() > 0,
    ensures
        label_of(name, address, id).len() > 0,
{
}

/// A client goes by its name where it has one, and else by its address. One
/// with neither goes by the first eight characters of its id, or by all of it
/// where it has no more.
pub proof fn law_a_client_goes_by_what_tells_it_apart(
    n: Seq<char>,
    a: Seq<char>,
    address: Option<Seq<char>>,
    id: Seq<char>,
    i: int,
)
    ensures
        label_of(Some(n), address, id) == n,
        label_of(None, Some(a), id) == a,
        label_of(None, None, id).len() <= 8,
        label_of(None, None, id).len() == 8 || label_of(None, None, id).len() == id.len(),
        0 <= i < label_of(None, None, id).len() ==> label_of(None, None, id)[i] == id[i],
{
}

} // verus!
