//! The ids under which agents' memories are kept: a scope character, or the
//! base64 text of a document's address.

use vstd::prelude::*;

use crate::blocks::{
    base64_decode, base64_encode, base64_url_bytes, base64_url_text, is_ascii_seq, latin1,
    lemma_ascii_round_trip, lemma_latin1_utf8_len, uri_parses, uri_valid,
};
use crate::text::{chars_of, clone_string, string_from_chars};

verus! {

/// Whose memory a record holds.
#[derive(Debug, Clone, PartialEq, Eq)]
pub enum AgentID {
    /// A document's agent, by the base64 text of the document's address.
    EncodedUri(String),
    /// A scope's agent, by the scope's character.
    Char(char),
}

/// Why an id held no document address.
#[derive(Debug, Clone, PartialEq, Eq)]
pub enum AgentIdError {
    /// The id is not URL-safe base64.
    Encoding,
    /// The decoded address is not a URI.
    Uri,
}

impl AgentID {
    /// The id of a scope's agent.
    pub fn from_char(value: &char) -> (id: AgentID)
        ensures
            id == AgentID::Char(*value),
    {
        AgentID::Char(*value)
    }

    /// The id of a document's agent.
    pub fn from_uri(value: &str) -> (id: AgentID)
        ensures
            id matches AgentID::EncodedUri(e) && e@ == base64_url_text(value@),
            is_ascii_seq(value@) && uri_valid(value@) ==> id.decoded_uri() == Ok::<
                Option<Seq<char>>,
                AgentIdError,
            >(Some(value@)),
    {
        let encoded = base64_encode(value);
        let id = AgentID::EncodedUri(encoded);
        proof {
            if is_ascii_seq(value@) && uri_valid(value@) {
                lemma_ascii_round_trip(value@);
            }
        }
        id
    }

    /// The id a record id text stands for: one character is a scope, a
    /// longer text is an encoded address.
    pub fn from_id_text(text: &str) -> (id: AgentID)
        ensures
            text@.len() == 1 ==> id == AgentID::Char(text@[0]),
            text@.len() != 1 ==> (id matches AgentID::EncodedUri(e) && e@ == text@),
    {
        let cs = chars_of(text);
        if cs.len() == 1 {
            AgentID::Char(cs[0])
        } else {
            AgentID::EncodedUri(text.to_owned())
        }
    }

    /// The id as text: the encoded address, or the scope character.
    pub fn to_string(&self) -> (s: String)
        ensures
            s@ == match self {
                AgentID::EncodedUri(e) => e@,
                AgentID::Char(c) => seq![*c],
            },
    {
        match self {
            AgentID::EncodedUri(e) => clone_string(e),
            AgentID::Char(c) => {
                let v: Vec<char> = vec![*c];
                let s = string_from_chars(v.as_slice());
                assert(s@ =~= seq![*c]);
                s
            },
        }
    }

    /// What reading the id gives: no address for a scope; for a document,
    /// the decoded address or why it could not be read.
    pub open spec fn decoded_uri(&self) -> Result<Option<Seq<char>>, AgentIdError> {
        match self {
            AgentID::Char(_) => Ok(None),
            AgentID::EncodedUri(e) => match base64_url_bytes(e@) {
                None => Err(AgentIdError::Encoding),
                Some(b) => if uri_valid(latin1(b)) {
                    Ok(Some(latin1(b)))
                } else {
                    Err(AgentIdError::Uri)
                },
            },
        }
    }

    /// The document address held by the id. The encoded text must fit the
    /// URI parser's length limit once decoded.
    pub fn decode_uri(&self) -> (r: Result<Option<String>, AgentIdError>)
        requires
            self matches AgentID::EncodedUri(e) ==> e@.len() <= i32::MAX / 2,
        ensures
            match (r, self.decoded_uri()) {
                (Ok(Some(u)), Ok(Some(v))) => u@ == v,
                (Ok(None), Ok(None)) => true,
                (Err(a), Err(b)) => a == b,
                _ => false,
            },
    {
        match self {
            AgentID::Char(_) => Ok(None),
            AgentID::EncodedUri(encoded) => {
                let bytes = match base64_decode(encoded.as_str()) {
                    Some(b) => b,
                    None => return Err(AgentIdError::Encoding),
                };
                let mut uri_chars: Vec<char> = Vec::new();
                let mut k: usize = 0;
                while k < bytes.len()
                    invariant
                        k <= bytes@.len(),
                        uri_chars@ == latin1(bytes@.take(k as int)),
                    decreases bytes@.len() - k,
                {
                    uri_chars.push(bytes[k] as char);
                    k = k + 1;
                    assert(uri_chars@ =~= latin1(bytes@.take(k as int)));
                }
                assert(bytes@.take(bytes@.len() as int) =~= bytes@);
                let uri = string_from_chars(uri_chars.as_slice());
                proof {
                    lemma_latin1_utf8_len(bytes@);
                }
                if !uri_parses(uri.as_str()) {
                    return Err(AgentIdError::Uri);
                }
                Ok(Some(uri))
            },
        }
    }
}

} // verus!
