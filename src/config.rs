//! Configuration of a run and its validation.
//!
//! Type-state: a `Config` is unchecked; only `Config::verify` produces a
//! `VerifiedConfig`, whose type invariant says that every keyword is valid.
use vstd::prelude::*;
use vstd::string::StringSliceAdditionalSpecFns;
use vstd::utf8::encode_utf8;

verus! {

/// The largest keyword, in bytes.
pub const KEYWORD_MAX_LEN: usize = 60;

/// The smallest keyword, in bytes.
pub const KEYWORD_MIN_LEN: usize = 1;

/// Length in bytes of the UTF-8 encoding of `s`, as `str::len` reports it
/// (a string in memory never holds more than `usize::MAX` bytes).
pub open spec fn byte_len(s: Seq<char>) -> usize {
    encode_utf8(s).len() as usize
}

/// A keyword is between 1 and 60 bytes long, inclusive.
pub open spec fn valid_keyword(k: Seq<char>) -> bool {
    KEYWORD_MIN_LEN <= byte_len(k) <= KEYWORD_MAX_LEN
}

/// The keywords of `ks` that are not valid, in their order.
pub open spec fn invalid_keywords(ks: Seq<String>) -> Seq<String>
    decreases ks.len(),
{
    if ks.len() == 0 {
        Seq::empty()
    } else {
        let rest = invalid_keywords(ks.drop_last());
        if valid_keyword(ks.last()@) {
            rest
        } else {
            rest.push(ks.last())
        }
    }
}

/// Every keyword of `ks` is valid.
pub open spec fn all_keywords_valid(ks: Seq<String>) -> bool {
    forall|i: int| 0 <= i < ks.len() ==> valid_keyword(#[trigger] ks[i]@)
}

/// Errors that verifying a configuration can give.
#[derive(Debug)]
pub enum ConfigError {
    /// The keywords that are not between 1 and 60 bytes in length.
    InvalidKeywords { keywords: Vec<String> },
}

/// The feed's configuration: the keywords to track and the credentials.
#[derive(Clone, Debug, Default)]
pub struct TwitterConfig {
    /// The keywords to track
    pub keywords: Vec<String>,
    /// The API token
    pub access_token: String,
    /// The API token secret
    pub access_token_secret: String,
    /// The consumer API key
    pub consumer_key: String,
    /// The consumer API secret
    pub consumer_secret: String,
}

/// An unverified configuration.
#[derive(Clone, Debug)]
pub struct Config {
    pub config: Box<TwitterConfig>,
}

/// A verified configuration: every keyword is valid.
#[derive(Debug)]
pub struct VerifiedConfig {
    config: Box<TwitterConfig>,
}

/// The command line of the program: the path of the YAML configuration file.
#[derive(Debug)]
pub struct CliOpts {
    pub config_file: String,
}

proof fn lemma_invalid_empty_iff_valid(ks: Seq<String>)
    ensures
        invalid_keywords(ks).len() == 0 <==> all_keywords_valid(ks),
    decreases ks.len(),
{
    if ks.len() > 0 {
        let front = ks.drop_last();
        lemma_invalid_empty_iff_valid(front);
        assert forall|i: int| 0 <= i < front.len() implies front[i] == ks[i] by {}
        if all_keywords_valid(ks) {
            assert(valid_keyword(ks[ks.len() - 1]@));
        }
    }
}

/// Byte length of a string.
fn keyword_byte_len(k: &String) -> (r: usize)
    ensures
        r == byte_len(k@),
{
    let s = k.as_str();
    assert(s.spec_bytes() == encode_utf8(s@));
    s.len()
}

impl Config {
    /// Verify the configuration and promote it to a `VerifiedConfig` when every
    /// keyword is between 1 and 60 bytes long, inclusive. Otherwise the error
    /// lists the invalid keywords in their order.
    pub fn verify(self) -> (r: Result<VerifiedConfig, ConfigError>)
        ensures
            r is Ok <==> all_keywords_valid(self.config.keywords@),
            r matches Ok(v) ==> v.view() == *self.config,
            r matches Err(ConfigError::InvalidKeywords { keywords }) ==> keywords@
                == invalid_keywords(self.config.keywords@),
    {
        let ks = &self.config.keywords;
        let mut bad: Vec<String> = Vec::new();
        let mut i: usize = 0;
        while i < ks.len()
            invariant
                i <= ks.len(),
                bad@ == invalid_keywords(ks@.take(i as int)),
            decreases ks.len() - i,
        {
            let k = &ks[i];
            let n: usize = keyword_byte_len(k);
            assert(ks@.take(i + 1).drop_last() =~= ks@.take(i as int));
            if n < KEYWORD_MIN_LEN || n > KEYWORD_MAX_LEN {
                bad.push(k.clone());
            }
            i = i + 1;
        }
        assert(ks@.take(ks.len() as int) =~= ks@);
        proof {
            lemma_invalid_empty_iff_valid(ks@);
        }
        if bad.len() > 0 {
            return Err(ConfigError::InvalidKeywords { keywords: bad });
        }
        Ok(VerifiedConfig { config: self.config })
    }
}

impl VerifiedConfig {
    #[verifier::type_invariant]
    spec fn inv(self) -> bool {
        all_keywords_valid(self.config.keywords@)
    }

    /// The configuration held.
    pub closed spec fn view(&self) -> TwitterConfig {
        *self.config
    }

    /// Retrieve the configuration held.
    pub fn get_config(&self) -> (r: &TwitterConfig)
        ensures
            *r == self.view(),
            all_keywords_valid(r.keywords@),
    {
        proof {
            use_type_invariant(self);
        }
        &self.config
    }
}

} // verus!
