//! The remote lookup: which field a query is matched against, the request URL
//! and the records that come back.

use crate::ranking::{is_ranking_of, rank};
use crate::trusted::{escape_of, hex_digit};
use percent_encoding::percent_encode_byte;
use vstd::prelude::*;
use vstd::string::StringExecFns;
use vstd::utf8::encode_utf8;

verus! {

/// The address of the search endpoint, up to the search term.
pub const BASE_URL: &'static str = "https://aur.archlinux.org/rpc?v=5&type=search&arg=";

/// The record attribute that a search term is matched against.
#[derive(Clone, Copy, Debug, PartialEq, Eq, Structural)]
pub enum By {
    Name,
    NameDesc,
    Maintainer,
    Depends,
    MakeDepends,
    OptDepends,
    CheckDepends,
}

impl By {
    /// The value of the `by` parameter of the request, as a sequence of characters.
    pub open spec fn keyword(self) -> Seq<char> {
        match self {
            By::Name => "name"@,
            By::NameDesc => "name-desc"@,
            By::Maintainer => "maintainer"@,
            By::Depends => "depends"@,
            By::MakeDepends => "makedepends"@,
            By::OptDepends => "optdepends"@,
            By::CheckDepends => "checkdepends"@,
        }
    }

    /// The value of the `by` parameter of the request.
    #[must_use]
    pub fn as_str(&self) -> (name: &'static str)
        ensures
            name@ == self.keyword(),
    {
        match self {
            By::Name => "name",
            By::NameDesc => "name-desc",
            By::Maintainer => "maintainer",
            By::Depends => "depends",
            By::MakeDepends => "makedepends",
            By::OptDepends => "optdepends",
            By::CheckDepends => "checkdepends",
        }
    }
}

/// Whether a byte of a search term is written as an escape. That is so for
/// every byte outside ASCII, for the control characters and the space, for
/// `"`, `<`, `>` and the backquote, and for the bytes that would end or alter
/// the parameter that carries the term: `#`, `%`, `&`, `+` and `=`.
pub open spec fn is_escaped(byte: u8) -> bool {
    ||| byte <= 0x20
    ||| byte >= 0x7F
    ||| byte == 0x22
    ||| byte == 0x23
    ||| byte == 0x25
    ||| byte == 0x26
    ||| byte == 0x2B
    ||| byte == 0x3C
    ||| byte == 0x3D
    ||| byte == 0x3E
    ||| byte == 0x60
}

/// What stands for one byte of a search term in the URL.
pub open spec fn escaped_byte(byte: u8) -> Seq<char> {
    if is_escaped(byte) {
        escape_of(byte)
    } else {
        seq![byte as char]
    }
}

/// What stands for the bytes of a search term in the URL: for each byte in
/// turn its escape, or the byte itself.
pub open spec fn escaped(bytes: Seq<u8>) -> Seq<char>
    decreases bytes.len(),
{
    if bytes.len() == 0 {
        Seq::empty()
    } else {
        escaped(bytes.drop_last()) + escaped_byte(bytes.last())
    }
}

/// The URL of the request that searches for `query` in the field `by`.
pub open spec fn url_of(by: By, query: Seq<char>) -> Seq<char> {
    BASE_URL@ + escaped(encode_utf8(query)) + "&by="@ + by.keyword()
}

/// The value of a hexadecimal digit, if the character is one.
pub open spec fn hex_value(digit: char) -> Option<int> {
    if '0' <= digit <= '9' {
        Some(digit as int - '0' as int)
    } else if 'A' <= digit <= 'F' {
        Some(digit as int - 'A' as int + 10)
    } else if 'a' <= digit <= 'f' {
        Some(digit as int - 'a' as int + 10)
    } else {
        None
    }
}

/// Whether the text begins with an escape: a percent sign and two
/// hexadecimal digits.
pub open spec fn begins_with_escape(text: Seq<char>) -> bool {
    text.len() >= 3 && text[0] == '%' && hex_value(text[1]).is_some() && hex_value(
        text[2],
    ).is_some()
}

/// The bytes that the text of a parameter stands for, as the reader of a
/// query string takes them: an escape stands for the byte it names, a plus
/// sign for a space, any other character for itself.
pub open spec fn unescaped(text: Seq<char>) -> Seq<u8>
    decreases text.len(),
{
    if text.len() == 0 {
        Seq::empty()
    } else if begins_with_escape(text) {
        seq![(16 * hex_value(text[1]).unwrap() + hex_value(text[2]).unwrap()) as u8] + unescaped(
            text.skip(3),
        )
    } else if text[0] == '+' {
        seq![0x20u8] + unescaped(text.skip(1))
    } else {
        seq![text[0] as u8] + unescaped(text.skip(1))
    }
}

proof fn lemma_escaped_from_front(byte: u8, rest: Seq<u8>)
    ensures
        escaped(seq![byte] + rest) == escaped_byte(byte) + escaped(rest),
    decreases rest.len(),
{
    let all = seq![byte] + rest;
    if rest.len() == 0 {
        assert(all.drop_last() =~= rest);
        assert(escaped(rest) =~= Seq::<char>::empty());
        assert(escaped(all) =~= escaped_byte(byte) + escaped(rest));
    } else {
        lemma_escaped_from_front(byte, rest.drop_last());
        assert(all.drop_last() =~= seq![byte] + rest.drop_last());
        assert(escaped(all) =~= escaped_byte(byte) + escaped(rest));
    }
}

proof fn lemma_unescaped_byte(byte: u8, rest: Seq<char>)
    ensures
        unescaped(escaped_byte(byte) + rest) == seq![byte] + unescaped(rest),
{
    let text = escaped_byte(byte) + rest;
    if is_escaped(byte) {
        assert(hex_value(hex_digit(byte as int / 16)) == Some(byte as int / 16));
        assert(hex_value(hex_digit(byte as int % 16)) == Some(byte as int % 16));
        assert(text[0] == '%' && text[1] == hex_digit(byte as int / 16) && text[2] == hex_digit(
            byte as int % 16,
        ));
        assert(text.skip(3) =~= rest);
    } else {
        assert(text[0] == byte as char);
        assert(text.skip(1) =~= rest);
    }
}

/// The term arrives as it was sent: what the escaped bytes of a term stand
/// for are the bytes of the term, whatever they are.
pub proof fn lemma_escaped_term_arrives(bytes: Seq<u8>)
    ensures
        unescaped(escaped(bytes)) == bytes,
    decreases bytes.len(),
{
    if bytes.len() > 0 {
        let rest = bytes.skip(1);
        assert(bytes =~= seq![bytes[0]] + rest);
        lemma_escaped_from_front(bytes[0], rest);
        lemma_unescaped_byte(bytes[0], escaped(rest));
        lemma_escaped_term_arrives(rest);
    }
}

/// The escaped term is one parameter and no more: it holds none of the
/// characters that end a parameter or the query string, and no space.
pub proof fn lemma_escaped_term_is_one_parameter(bytes: Seq<u8>)
    ensures
        forall|i: int|
            0 <= i < escaped(bytes).len() ==> {
                let c = #[trigger] escaped(bytes)[i];
                c != '&' && c != '#' && c != '=' && c != '+' && c != ' ' && '!' <= c <= '~'
            },
    decreases bytes.len(),
{
    if bytes.len() > 0 {
        lemma_escaped_term_is_one_parameter(bytes.drop_last());
        let front = escaped(bytes.drop_last());
        let last = escaped_byte(bytes.last());
        assert forall|i: int| 0 <= i < escaped(bytes).len() implies {
            let c = #[trigger] escaped(bytes)[i];
            c != '&' && c != '#' && c != '=' && c != '+' && c != ' ' && '!' <= c <= '~'
        } by {
            if i < front.len() {
                assert(escaped(bytes)[i] == front[i]);
            } else {
                assert(escaped(bytes)[i] == last[i - front.len()]);
            }
        }
    }
}

fn must_escape(byte: u8) -> (yes: bool)
    ensures
        yes == is_escaped(byte),
{
    byte <= 0x20 || byte >= 0x7F || byte == 0x22 || byte == 0x23 || byte == 0x25 || byte == 0x26
        || byte == 0x2B || byte == 0x3C || byte == 0x3D || byte == 0x3E || byte == 0x60
}

/// Writes a search term as it stands in the URL: its UTF-8 bytes, each one
/// that the URL cannot hold as it is replaced by its escape.
pub fn escape_query(query: &str) -> (text: String)
    ensures
        text@ == escaped(encode_utf8(query@)),
{
    let bytes = query.as_bytes();
    let mut text = String::new();
    let mut done: usize = 0;
    while done < bytes.len()
        invariant
            done <= bytes.len(),
            text@ == escaped(bytes@.take(done as int)),
        decreases bytes.len() - done,
    {
        let byte = bytes[done];
        proof {
            let upto = bytes@.take(done + 1);
            assert(upto.drop_last() =~= bytes@.take(done as int));
        }
        if must_escape(byte) {
            text.append(percent_encode_byte(byte));
        } else {
            text.push(byte as char);
        }
        done += 1;
    }
    assert(bytes@.take(done as int) =~= bytes@);
    text
}

/// The URL of the request that searches for `query` in the field `by`.
pub fn search_url(by: By, query: &str) -> (url: String)
    ensures
        url@ == url_of(by, query@),
{
    let term = escape_query(query);
    let mut url = String::from_str(BASE_URL);
    url.append(term.as_str());
    url.append("&by=");
    url.append(by.as_str());
    url
}

/// A popularity score, held as the bit pattern of an IEEE 754 single-precision
/// number, so that every score, the infinities and the NaNs included, has a
/// place in one order.
#[derive(Clone, Copy, Debug, PartialEq, Eq, Structural)]
pub struct Popularity {
    pub bits: u32,
}

impl Popularity {
    /// The place of the score among the scores: its magnitude, which the
    /// bits below the sign bit count, with the sign of the score. Scores that
    /// are equal as numbers have one rank, the two zeros among them. A NaN
    /// of positive sign ranks above every number, one of negative sign below.
    pub open spec fn rank(self) -> int {
        if self.bits < 0x8000_0000 {
            self.bits as int
        } else {
            0x8000_0000 - self.bits
        }
    }

    pub fn from_bits(bits: u32) -> (score: Popularity)
        ensures
            score.bits == bits,
    {
        Popularity { bits }
    }

    pub fn to_bits(self) -> (bits: u32)
        ensures
            bits == self.bits,
    {
        self.bits
    }

    /// Whether this score stands strictly above `other`.
    pub fn outranks(self, other: Popularity) -> (above: bool)
        ensures
            above == (self.rank() > other.rank()),
    {
        self.key() > other.key()
    }

    fn key(self) -> (key: i64)
        ensures
            key == self.rank(),
    {
        if self.bits < 0x8000_0000 {
            self.bits as i64
        } else {
            0x8000_0000i64 - (self.bits as i64)
        }
    }
}

/// Two scores have one rank if and only if they are equal as numbers or are
/// the same NaN: their bits are the same, or both are a zero.
pub proof fn lemma_equal_scores_tie(a: Popularity, b: Popularity)
    ensures
        a.rank() == b.rank() <==> a.bits == b.bits || (a.bits % 0x8000_0000 == 0 && b.bits
            % 0x8000_0000 == 0),
{
}

/// One record of a search response. The two timestamps count seconds since
/// the Unix epoch.
#[derive(Debug)]
pub struct Package {
    pub description: Option<String>,
    pub first_submitted: i64,
    pub last_modified: i64,
    pub id: u32,
    pub maintainer: Option<String>,
    pub name: String,
    pub num_votes: u32,
    pub package_base: Option<String>,
    pub package_base_id: u32,
    pub popularity: Popularity,
    pub url: Option<String>,
    pub url_path: Option<String>,
    pub version: Option<String>,
}

impl Clone for Package {
    fn clone(&self) -> (copy: Package)
        ensures
            copy == *self,
    {
        Package {
            description: self.description.clone(),
            first_submitted: self.first_submitted,
            last_modified: self.last_modified,
            id: self.id,
            maintainer: self.maintainer.clone(),
            name: self.name.clone(),
            num_votes: self.num_votes,
            package_base: self.package_base.clone(),
            package_base_id: self.package_base_id,
            popularity: self.popularity,
            url: self.url.clone(),
            url_path: self.url_path.clone(),
            version: self.version.clone(),
        }
    }
}

/// The records that a lookup hands on. A lookup that failed, whatever the
/// reason, hands on no record; one that brought records hands them on
/// ranked: by falling popularity, equally popular ones in the order of their
/// arrival.
pub fn ranked_response(response: Option<Vec<Package>>) -> (results: Vec<Package>)
    ensures
        match response {
            Some(records) => is_ranking_of(results@, records@) && results@.to_multiset()
                == records@.to_multiset() && results@.len() == records@.len(),
            None => results@ == Seq::<Package>::empty(),
        },
{
    match response {
        Some(records) => rank(records),
        None => Vec::new(),
    }
}

} // verus!
