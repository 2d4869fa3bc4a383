//! The durable wallet record: the seed phrase and the hex-encoded secret key,
//! public key and public address, with its canonical text document form.
//!
//! A record is created once from a derived keypair, written out as a
//! structured text document, and read back verbatim: saving and loading
//! round-trips every well-formed record field for field.

use vstd::prelude::*;

use crate::address::{address_chars_of, has_uncompressed_marker, public_key_address};
use crate::errors::WalletError;
use crate::hexutil::{all_hex_digits, hex_decode, hex_decode_of, hex_of, lemma_hex_of_chars};
use crate::keys::Keypair;
use crate::recordjson::{
    expect_lit, lemma_parse_field_render, lemma_parse_words_render, lit_at, parse_field,
    parse_field_at, parse_words, parse_words_at, render_words, wf_text, wf_words,
};

verus! {

/// The mathematical content of a wallet record: the word sequence and the
/// three stored character strings.
pub struct WalletModel {
    pub seed_phrase: Seq<Seq<char>>,
    pub secret_key: Seq<char>,
    pub public_key: Seq<char>,
    pub public_address: Seq<char>,
}

impl WalletModel {
    /// Whether every field can stand inside the quotes of the document:
    /// free of quotes, backslashes and control characters.
    pub open spec fn wf(&self) -> bool {
        &&& wf_words(self.seed_phrase)
        &&& wf_text(self.secret_key)
        &&& wf_text(self.public_key)
        &&& wf_text(self.public_address)
    }
}

/// The persisted identity record: a seed phrase and the hex encodings of the
/// secret key, the public key and the on-chain address.
#[derive(Debug)]
pub struct Wallet {
    pub seed_phrase: Vec<String>,
    pub secret_key: String,
    pub public_key: String,
    pub public_address: String,
}

impl View for Wallet {
    type V = WalletModel;

    open spec fn view(&self) -> WalletModel {
        WalletModel {
            seed_phrase: self.seed_phrase.deep_view(),
            secret_key: self.secret_key@,
            public_key: self.public_key@,
            public_address: self.public_address@,
        }
    }
}

/// The document text of a record: a four-field object, the seed phrase as an
/// array of quoted words, each remaining field a quoted string on a line of
/// its own.
pub open spec fn render_doc(m: WalletModel) -> Seq<char> {
    "{\n  \"seed_phrase\": ["@ + render_words(m.seed_phrase) + "]"@ + ",\n  \"secret_key\": \""@
        + m.secret_key + "\",\n  \"public_key\": \""@ + m.public_key
        + "\",\n  \"public_address\": \""@ + m.public_address + "\"\n}"@
}

/// The record read off a document text, or nothing when the text does not
/// carry the canonical four-field layout — a missing or misnamed field, an
/// unterminated string, trailing text, and every other malformation.
pub open spec fn parse_doc(t: Seq<char>) -> Option<WalletModel> {
    let l1 = "{\n  \"seed_phrase\": ["@;
    let l2 = ",\n  \"secret_key\": \""@;
    let l3 = "\",\n  \"public_key\": \""@;
    let l4 = "\",\n  \"public_address\": \""@;
    let l5 = "\"\n}"@;
    if !lit_at(t, 0, l1) {
        None
    } else {
        match parse_words_at(t, l1.len() as int) {
            None => None,
            Some((ws, i2)) => {
                if !lit_at(t, i2, l2) {
                    None
                } else {
                    match parse_field_at(t, i2 + l2.len()) {
                        None => None,
                        Some((sk, i3)) => {
                            if !lit_at(t, i3, l3) {
                                None
                            } else {
                                match parse_field_at(t, i3 + l3.len()) {
                                    None => None,
                                    Some((pk, i4)) => {
                                        if !lit_at(t, i4, l4) {
                                            None
                                        } else {
                                            match parse_field_at(t, i4 + l4.len()) {
                                                None => None,
                                                Some((ad, i5)) => {
                                                    if lit_at(t, i5, l5) && i5 + l5.len()
                                                        == t.len() {
                                                        Some(
                                                            WalletModel {
                                                                seed_phrase: ws,
                                                                secret_key: sk,
                                                                public_key: pk,
                                                                public_address: ad,
                                                            },
                                                        )
                                                    } else {
                                                        None
                                                    }
                                                },
                                            }
                                        }
                                    },
                                }
                            }
                        },
                    }
                }
            },
        }
    }
}

impl Wallet {
    /// Builds the record of a seed phrase and its derived keypair.
    ///
    /// The keypair's uncompressed encoding is checked for the
    /// uncompressed-point marker; a corrupt encoding fails the construction.
    /// On success every stored field is pinned: the phrase as given, the
    /// secret key and public key as lowercase hex of the keypair's bytes, and
    /// the address derived from the public key.
    pub fn new(seed_phrase: Vec<String>, keypair: &Keypair) -> (r: Result<Wallet, WalletError>)
        ensures
            r is Ok <==> has_uncompressed_marker(keypair.public_uncompressed@),
            r matches Ok(w) ==> w@ == (WalletModel {
                seed_phrase: seed_phrase.deep_view(),
                secret_key: hex_of(keypair.secret_bytes@),
                public_key: hex_of(keypair.public_compressed@),
                public_address: address_chars_of(keypair.public_uncompressed@),
            }),
            r matches Ok(w) ==> (wf_words(seed_phrase.deep_view()) ==> w@.wf()),
            r matches Err(e) ==> e == WalletError::CryptoFormat,
    {
        let public_address = match public_key_address(keypair) {
            Ok(a) => a,
            Err(e) => {
                return Err(e);
            },
        };
        let w = Wallet {
            seed_phrase,
            secret_key: keypair.secret_hex(),
            public_key: keypair.public_hex(),
            public_address,
        };
        proof {
            lemma_hex_of_chars(keypair.secret_bytes@);
            lemma_hex_of_chars(keypair.public_compressed@);
            lemma_hex_of_chars(
                crate::address::keccak_of(keypair.public_uncompressed@.subrange(1, 65)).subrange(
                    12,
                    32,
                ),
            );
        }
        Ok(w)
    }

    /// Reads the stored secret key back into its 32 raw bytes.
    ///
    /// Succeeds exactly when the stored field is 64 hexadecimal characters;
    /// anything else is a malformed record field, surfaced as a parse
    /// failure, never a crash.
    pub fn get_secret_key(&self) -> (r: Result<Vec<u8>, WalletError>)
        ensures
            r is Ok <==> (self.secret_key@.len() == 64 && all_hex_digits(self.secret_key@)),
            r matches Ok(b) ==> b@ == hex_decode_of(self.secret_key@) && b@.len() == 32,
            r matches Err(e) ==> e == WalletError::Parse,
    {
        if self.secret_key.unicode_len() != 64 {
            return Err(WalletError::Parse);
        }
        hex_decode(self.secret_key.as_str())
    }

    /// Renders the record as its canonical document text.
    pub fn to_json(&self) -> (r: String)
        ensures
            r@ == render_doc(self@),
    {
        proof {
            reveal_strlit("\"");
            reveal_strlit(", ");
        }
        let mut out = String::new();
        out.append("{\n  \"seed_phrase\": [");
        let n = self.seed_phrase.len();
        for i in 0..n
            invariant
                n == self.seed_phrase@.len(),
                out@ == "{\n  \"seed_phrase\": ["@ + render_words(self@.seed_phrase.take(i as int)),
        {
            if i > 0 {
                out.append(", ");
            }
            out.append("\"");
            out.append(self.seed_phrase[i].as_str());
            out.append("\"");
            proof {
                reveal_strlit("\"");
                reveal_strlit(", ");
                crate::recordjson::lemma_render_words_push(
                    self@.seed_phrase.take(i as int),
                    self@.seed_phrase[i as int],
                );
                assert(self@.seed_phrase.take(i + 1) =~= self@.seed_phrase.take(i as int).push(
                    self@.seed_phrase[i as int],
                ));
                assert(out@ =~= "{\n  \"seed_phrase\": ["@ + render_words(
                    self@.seed_phrase.take(i + 1),
                ));
            }
        }
        out.append("]");
        out.append(",\n  \"secret_key\": \"");
        out.append(self.secret_key.as_str());
        out.append("\",\n  \"public_key\": \"");
        out.append(self.public_key.as_str());
        out.append("\",\n  \"public_address\": \"");
        out.append(self.public_address.as_str());
        out.append("\"\n}");
        proof {
            assert(self@.seed_phrase.take(n as int) =~= self@.seed_phrase);
            assert(out@ =~= render_doc(self@));
        }
        out
    }

    /// Reads a record back from its document text.
    ///
    /// Succeeds exactly on texts in the canonical layout; a malformed
    /// document — in particular one with a missing field — fails with a parse
    /// error and yields no record at all.
    pub fn from_json(s: &str) -> (r: Result<Wallet, WalletError>)
        ensures
            r is Ok <==> parse_doc(s@) is Some,
            r matches Ok(w) ==> parse_doc(s@) == Some(w@),
            r matches Err(e) ==> e == WalletError::Parse,
    {
        let i1 = match expect_lit(s, 0, "{\n  \"seed_phrase\": [") {
            Some(j) => j,
            None => {
                return Err(WalletError::Parse);
            },
        };
        let (words, i2) = match parse_words(s, i1) {
            Some(p) => p,
            None => {
                return Err(WalletError::Parse);
            },
        };
        let i3 = match expect_lit(s, i2, ",\n  \"secret_key\": \"") {
            Some(j) => j,
            None => {
                return Err(WalletError::Parse);
            },
        };
        let (secret_key, i4) = match parse_field(s, i3) {
            Some(p) => p,
            None => {
                return Err(WalletError::Parse);
            },
        };
        let i5 = match expect_lit(s, i4, "\",\n  \"public_key\": \"") {
            Some(j) => j,
            None => {
                return Err(WalletError::Parse);
            },
        };
        let (public_key, i6) = match parse_field(s, i5) {
            Some(p) => p,
            None => {
                return Err(WalletError::Parse);
            },
        };
        let i7 = match expect_lit(s, i6, "\",\n  \"public_address\": \"") {
            Some(j) => j,
            None => {
                return Err(WalletError::Parse);
            },
        };
        let (public_address, i8) = match parse_field(s, i7) {
            Some(p) => p,
            None => {
                return Err(WalletError::Parse);
            },
        };
        let i9 = match expect_lit(s, i8, "\"\n}") {
            Some(j) => j,
            None => {
                return Err(WalletError::Parse);
            },
        };
        if i9 != s.unicode_len() {
            return Err(WalletError::Parse);
        }
        Ok(Wallet { seed_phrase: words, secret_key, public_key, public_address })
    }
}

/// Saving then loading restores the record: parsing the rendered document of
/// any well-formed record yields exactly that record.
pub proof fn lemma_save_load_round_trip(m: WalletModel)
    requires
        m.wf(),
    ensures
        parse_doc(render_doc(m)) == Some(m),
{
    reveal_strlit("\",\n  \"public_key\": \"");
    reveal_strlit("\",\n  \"public_address\": \"");
    reveal_strlit("\"\n}");
    reveal_strlit("]");
    let t = render_doc(m);
    let l1 = "{\n  \"seed_phrase\": ["@;
    let rb = "]"@;
    let l2 = ",\n  \"secret_key\": \""@;
    let l3 = "\",\n  \"public_key\": \""@;
    let l4 = "\",\n  \"public_address\": \""@;
    let l5 = "\"\n}"@;
    let rw = render_words(m.seed_phrase);
    let q1 = l1.len() as int;
    let q2 = q1 + rw.len();
    let q3 = q2 + 1;
    let q4 = q3 + l2.len();
    let q5 = q4 + m.secret_key.len();
    let q6 = q5 + l3.len();
    let q7 = q6 + m.public_key.len();
    let q8 = q7 + l4.len();
    let q9 = q8 + m.public_address.len();
    assert(rb.len() == 1);
    assert(t.len() == q9 + l5.len());
    assert(t.subrange(0, q1) =~= l1);
    assert(t.subrange(q1, q2) =~= rw);
    assert(t[q2] == ']');
    assert(t.subrange(q3, q4) =~= l2);
    assert(t.subrange(q4, q5) =~= m.secret_key);
    assert(t.subrange(q5, q6) =~= l3);
    assert(t.subrange(q6, q7) =~= m.public_key);
    assert(t.subrange(q7, q8) =~= l4);
    assert(t.subrange(q8, q9) =~= m.public_address);
    assert(t.subrange(q9, t.len() as int) =~= l5);
    assert(lit_at(t, 0, l1));
    lemma_parse_words_render(t, q1, m.seed_phrase);
    assert(parse_words_at(t, q1) == Some((m.seed_phrase, q3)));
    assert(lit_at(t, q3, l2));
    assert(t[q5] == l3[0]);
    assert(t[q5] == '"');
    lemma_parse_field_render(t, q4, m.secret_key);
    assert(parse_field_at(t, q4) == Some((m.secret_key, q5)));
    assert(lit_at(t, q5, l3));
    assert(t[q7] == l4[0]);
    assert(t[q7] == '"');
    lemma_parse_field_render(t, q6, m.public_key);
    assert(parse_field_at(t, q6) == Some((m.public_key, q7)));
    assert(lit_at(t, q7, l4));
    assert(t[q9] == l5[0]);
    assert(t[q9] == '"');
    lemma_parse_field_render(t, q8, m.public_address);
    assert(parse_field_at(t, q8) == Some((m.public_address, q9)));
    assert(lit_at(t, q9, l5));
    assert(q9 + l5.len() == t.len());
    assert(parse_doc(t) == Some(m));
}

} // verus!
