//! How a repository is encrypted.
use vstd::prelude::*;

use crate::config;
use crate::config::{missing_option, CommandError, LoadedConfig, OptionValue};
use crate::text::text_eq;

verus! {

/// The cipher of a repository.
#[derive(Debug, Clone, Copy, PartialEq, Eq, Structural)]
pub enum CipherType {
    /// Nothing is encrypted.
    Unencrypted,
    /// AES with a key of 256 bits, in chained blocks.
    Aes256Cbc,
}

/// The cipher that a word names; any other word names none.
pub open spec fn cipher_named(word: Option<Seq<char>>) -> CipherType {
    if word == Some("aes-256-cbc"@) {
        CipherType::Aes256Cbc
    } else {
        CipherType::Unencrypted
    }
}

impl CipherType {
    /// Whether anything is encrypted.
    pub open spec fn encrypts(self) -> bool {
        self != CipherType::Unencrypted
    }

    /// The cipher that a word names.
    pub fn from_str_id(word: &str) -> (r: Self)
        ensures
            r == cipher_named(Some(word@)),
    {
        if text_eq(word, "aes-256-cbc") {
            CipherType::Aes256Cbc
        } else {
            CipherType::Unencrypted
        }
    }

    /// Whether anything is encrypted.
    pub fn is_encrypted(&self) -> (r: bool)
        ensures
            r == self.encrypts(),
    {
        match self {
            CipherType::Unencrypted => false,
            CipherType::Aes256Cbc => true,
        }
    }
}

/// What the options say of one repository's encryption.
#[derive(Debug)]
pub struct RepoCipherConfig {
    pub cipher_type: CipherType,
    /// The user's passphrase, where one was given.
    pub user_pass: Option<String>,
}

/// The word at a repository's option.
pub fn repo_string_id<'a>(config: &'a LoadedConfig, name: &str, index: u32) -> (r: Option<&'a str>)
    ensures
        config::opt_view(r) == config::id_of(config.option(name@, Some(index))),
{
    match config.options.get(name, Some(index)) {
        Some(OptionValue::StringId(value)) => Some(value.as_str()),
        _ => None,
    }
}

/// The free text at a repository's option.
pub fn repo_string<'a>(config: &'a LoadedConfig, name: &str, index: u32) -> (r: Option<&'a str>)
    ensures
        config::opt_view(r) == config::string_of(config.option(name@, Some(index))),
{
    match config.options.get(name, Some(index)) {
        Some(OptionValue::String(value)) => Some(value.as_str()),
        _ => None,
    }
}

/// A text where it is there and not empty.
pub open spec fn filled(v: Option<Seq<char>>) -> Option<Seq<char>> {
    match v {
        Some(s) => if s.len() > 0 {
            Some(s)
        } else {
            None
        },
        None => None,
    }
}

/// What the options of the repository `index` say of its cipher.
pub open spec fn configured_cipher(config: LoadedConfig, index: u32) -> CipherType {
    cipher_named(config::id_of(config.option("repo-cipher-type"@, Some(index))))
}

/// The passphrase that the options of the repository `index` give.
pub open spec fn configured_pass(config: LoadedConfig, index: u32) -> Option<Seq<char>> {
    filled(config::string_of(config.option("repo-cipher-pass"@, Some(index))))
}

impl RepoCipherConfig {
    /// Whether this is what the options of the repository `index` say.
    pub open spec fn configured(self, config: LoadedConfig, index: u32) -> bool {
        self.cipher_type == configured_cipher(config, index) && config::opt_text(self.user_pass) == configured_pass(config, index)
    }

    /// The passphrase that the info files are encrypted under.
    pub open spec fn key(self) -> Option<Seq<char>> {
        if self.cipher_type.encrypts() {
            config::opt_text(self.user_pass)
        } else {
            None
        }
    }

    /// Whether a passphrase is needed but not there.
    pub open spec fn lacks_pass(self) -> bool {
        self.cipher_type.encrypts() && filled(config::opt_text(self.user_pass)) is None
    }

    /// What the options of the repository `index` say.
    pub fn from_config(config: &LoadedConfig, index: u32) -> (r: Self)
        ensures
            r.configured(*config, index),
    {
        let cipher_type = match repo_string_id(config, "repo-cipher-type", index) {
            Some(word) => CipherType::from_str_id(word),
            None => CipherType::Unencrypted,
        };
        let user_pass = match repo_string(config, "repo-cipher-pass", index) {
            Some(pass) => if pass.is_empty() {
                None
            } else {
                Some(pass.to_owned())
            },
            None => None,
        };
        RepoCipherConfig { cipher_type, user_pass }
    }

    /// The passphrase that the info files are encrypted under; none where they are
    /// not.
    pub fn passphrase(&self) -> (r: Option<&str>)
        ensures
            config::opt_view(r) == self.key(),
    {
        if self.cipher_type.is_encrypted() {
            match &self.user_pass {
                Some(pass) => Some(pass.as_str()),
                None => None,
            }
        } else {
            None
        }
    }

    /// Refuses an encrypted repository without a passphrase.
    pub fn require_passphrase(&self) -> (r: Result<(), CommandError>)
        ensures
            if self.lacks_pass() {
                r matches Err(e) && e.is_missing("repo-cipher-pass"@)
            } else {
                r is Ok
            },
    {
        if !self.cipher_type.is_encrypted() {
            return Ok(());
        }
        let given: bool = match &self.user_pass {
            Some(pass) => !pass.as_str().is_empty(),
            None => false,
        };
        if given {
            Ok(())
        } else {
            Err(missing_option("repo-cipher-pass"))
        }
    }
}

/// The first repository from place `i` on that is to be encrypted but has no
/// passphrase.
pub open spec fn first_lacking(config: LoadedConfig, repos: Seq<u32>, i: int) -> Option<int>
    decreases repos.len() - i,
{
    if i < 0 || i >= repos.len() {
        None
    } else if configured_cipher(config, repos[i]).encrypts() && configured_pass(config, repos[i]) is None {
        Some(i)
    } else {
        first_lacking(config, repos, i + 1)
    }
}

/// Whether these are what the options say of the repositories, one for each and in order.
pub open spec fn all_configured(v: Seq<RepoCipherConfig>, config: LoadedConfig, repos: Seq<u32>) -> bool {
    &&& v.len() == repos.len()
    &&& forall|i: int| 0 <= i < v.len() ==> (#[trigger] v[i]).configured(config, repos[i])
}

/// What the options say of the encryption of each repository. One that is to be
/// encrypted but has no passphrase fails them all.
pub fn repo_ciphers(config: &LoadedConfig, repos: &Vec<u32>) -> (r: Result<Vec<RepoCipherConfig>, CommandError>)
    ensures
        match first_lacking(*config, repos@, 0) {
            Some(i) => r matches Err(e) && e.is_missing("repo-cipher-pass"@),
            None => r matches Ok(v) && all_configured(v@, *config, repos@),
        },
{
    let mut out: Vec<RepoCipherConfig> = Vec::new();
    let n: usize = repos.len();
    let mut i: usize = 0;
    while i < n
        invariant
            i <= n,
            n == repos.len(),
            out.len() == i,
            first_lacking(*config, repos@, 0) == first_lacking(*config, repos@, i as int),
            forall|k: int| 0 <= k < i ==> (#[trigger] out[k]).configured(*config, repos[k]),
        decreases n - i,
    {
        let cipher = RepoCipherConfig::from_config(config, repos[i]);
        if let Err(e) = cipher.require_passphrase() {
            return Err(e);
        }
        out.push(cipher);
        i += 1;
    }
    Ok(out)
}

/// Whatever the options say, a repository whose encryption is accepted is encrypted
/// under a passphrase or not at all.
pub proof fn law_accepted_cipher_has_its_key(cipher: RepoCipherConfig, config: LoadedConfig, index: u32)
    requires
        cipher.configured(config, index),
        !cipher.lacks_pass(),
    ensures
        cipher.key() is Some <==> cipher.cipher_type.encrypts(),
        cipher.key() matches Some(k) ==> k.len() > 0,
{
}

/// A repository is encrypted where its cipher is given by the word `aes-256-cbc`, and then
/// under the passphrase that its options give as free text that is not empty; the options
/// of another repository have no say. Encrypted without a passphrase it is refused.
pub proof fn law_cipher_of_a_repository(
    config: &LoadedConfig,
    index: u32,
    kind: Option<&OptionValue>,
    pass: Option<&OptionValue>,
    r: RepoCipherConfig,
    encrypted: bool,
    key: Option<&str>,
    accepted: Result<(), CommandError>,
)
    requires
        call_ensures(config::Options::get, (&config.options, "repo-cipher-type", Some(index)), kind),
        call_ensures(config::Options::get, (&config.options, "repo-cipher-pass", Some(index)), pass),
        call_ensures(RepoCipherConfig::from_config, (config, index), r),
        call_ensures(CipherType::is_encrypted, (&r.cipher_type,), encrypted),
        call_ensures(RepoCipherConfig::passphrase, (&r,), key),
        call_ensures(RepoCipherConfig::require_passphrase, (&r,), accepted),
    ensures
        ({
            let word = match kind {
                Some(OptionValue::StringId(w)) => Some(w@),
                _ => None,
            };
            let given = match pass {
                Some(OptionValue::String(p)) => p@,
                _ => Seq::<char>::empty(),
            };
            &&& encrypted <==> word == Some("aes-256-cbc"@)
            &&& r.cipher_type == CipherType::Aes256Cbc <==> encrypted
            &&& key is Some <==> encrypted && given.len() > 0
            &&& key is Some ==> key.unwrap()@ == given
            &&& r.user_pass is Some <==> given.len() > 0
            &&& r.user_pass is Some ==> r.user_pass.unwrap()@ == given
            &&& accepted is Err <==> encrypted && given.len() == 0
            &&& accepted is Err ==> accepted->Err_0.is_missing("repo-cipher-pass"@)
        }),
{
}

/// The words at a repository's options, each read as what it was given as.
pub proof fn law_repository_options(
    config: &LoadedConfig,
    name: &str,
    index: u32,
    value: Option<&OptionValue>,
    word: Option<&str>,
    free: Option<&str>,
    named: &str,
    cipher: CipherType,
)
    requires
        call_ensures(config::Options::get, (&config.options, name, Some(index)), value),
        call_ensures(repo_string_id, (config, name, index), word),
        call_ensures(repo_string, (config, name, index), free),
        call_ensures(CipherType::from_str_id, (named,), cipher),
    ensures
        match value {
            Some(OptionValue::StringId(s)) => word is Some && word.unwrap()@ == s@ && free is None,
            Some(OptionValue::String(s)) => free is Some && free.unwrap()@ == s@ && word is None,
            _ => word is None && free is None,
        },
        cipher == CipherType::Aes256Cbc <==> named@ == "aes-256-cbc"@,
{
}

/// Each repository has the encryption that its own options give, and one without its
/// passphrase fails them all.
pub proof fn law_each_repository_by_itself(
    config: &LoadedConfig,
    repos: &Vec<u32>,
    i: int,
    one: RepoCipherConfig,
    accepted: Result<(), CommandError>,
    r: Result<Vec<RepoCipherConfig>, CommandError>,
)
    requires
        0 <= i < repos.len(),
        call_ensures(RepoCipherConfig::from_config, (config, repos[i]), one),
        call_ensures(RepoCipherConfig::require_passphrase, (&one,), accepted),
        call_ensures(repo_ciphers, (config, repos), r),
    ensures
        accepted is Err ==> r is Err,
        r is Err ==> r->Err_0.is_missing("repo-cipher-pass"@),
        r is Ok ==> r->Ok_0.len() == repos.len() && r->Ok_0[i].cipher_type == one.cipher_type && config::opt_text(
            r->Ok_0[i].user_pass,
        ) == config::opt_text(one.user_pass),
{
    if accepted is Err {
        lemma_first_lacking(*config, repos@, 0, i);
    }
    if r is Ok {
        assert(all_configured(r->Ok_0@, *config, repos@));
        assert(r->Ok_0@[i].configured(*config, repos@[i]));
    }
}

proof fn lemma_first_lacking(config: LoadedConfig, repos: Seq<u32>, from: int, i: int)
    requires
        0 <= from <= i < repos.len(),
        configured_cipher(config, repos[i]).encrypts(),
        configured_pass(config, repos[i]) is None,
    ensures
        first_lacking(config, repos, from) is Some,
    decreases i - from,
{
    if from < i {
        lemma_first_lacking(config, repos, from + 1, i);
    }
}

}
