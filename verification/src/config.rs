//! The run configuration: what to share, where to save, the port, the
//! address policy, and the seed the identity is derived from.
use vstd::prelude::*;
use vstd::string::*;
use vstd::utf8::encode_utf8;
use crate::Cli;
use crate::item::Secret;
use crate::item::secret::SecretError;
use crate::item::secret::comma_count;
use crate::item::secret::parse_secret_spec;
use crate::security::Ipv4Address;
use crate::strutil;

verus! {

/// The seed string padded on the right with spaces to 32 characters
/// and truncated to 32: the operator-facing rendering of the key
/// material.
pub open spec fn pad_spec(s: Seq<char>) -> Seq<char> {
    if s.len() >= 32 {
        s.take(32)
    } else {
        s + Seq::new((32 - s.len()) as nat, |i: int| ' ')
    }
}

/// A byte string padded on the right with spaces to 32 bytes and
/// truncated to 32: any seed yields exactly 32 bytes of key material.
pub open spec fn pad_bytes_spec(b: Seq<u8>) -> Seq<u8> {
    if b.len() >= 32 {
        b.take(32)
    } else {
        b + Seq::new((32 - b.len()) as nat, |i: int| 32u8)
    }
}

/// The 32 bytes of key material a seed string yields: its UTF-8 bytes,
/// padded with spaces and truncated to 32.
pub open spec fn seed_material(s: Seq<char>) -> Seq<u8> {
    pad_bytes_spec(encode_utf8(s))
}


/// Every string of the sequence holds exactly one comma.
pub open spec fn all_parse(v: Seq<String>) -> bool {
    forall|i: int| 0 <= i < v.len() ==> comma_count((#[trigger] v[i])@) == 1
}

/// The index of the first string without exactly one comma, or the
/// length when every string parses.
pub open spec fn first_bad_secret(v: Seq<String>) -> int
    decreases v.len(),
{
    if v.len() == 0 {
        0
    } else if comma_count(v[0]@) != 1 {
        0
    } else {
        1 + first_bad_secret(v.drop_first())
    }
}

/// Every secret string of the list holds exactly one comma, so each
/// parses; vacuously true of an absent list.
pub open spec fn all_secrets_parse(ss: Option<Vec<String>>) -> bool {
    match ss {
        Option::None => true,
        Option::Some(v) => all_parse(v@),
    }
}

proof fn lemma_first_bad_secret(v: Seq<String>, i: int)
    requires
        0 <= i < v.len(),
        comma_count(v[i]@) != 1,
        forall|j: int| 0 <= j < i ==> comma_count((#[trigger] v[j])@) == 1,
    ensures
        first_bad_secret(v) == i,
    decreases i,
{
    if i > 0 {
        lemma_first_bad_secret(v.drop_first(), i - 1);
    }
}

/// The configuration of one run.
#[derive(Debug, Clone)]
pub struct Config {
    secret: Option<Vec<Secret>>,
    message: Option<Vec<String>>,
    file: Option<Vec<String>>,
    port: i32,
    debug: u8,
    save_path: String,
    whitelists: Option<Vec<Ipv4Address>>,
    blacklists: Option<Vec<Ipv4Address>>,
    seed: String,
}

impl Config {
    /// The parsed secrets, as a spec value.
    pub closed spec fn spec_secret(&self) -> Option<Vec<Secret>> {
        self.secret
    }

    /// The messages, as a spec value.
    pub closed spec fn spec_message(&self) -> Option<Vec<String>> {
        self.message
    }

    /// The file paths, as a spec value.
    pub closed spec fn spec_file(&self) -> Option<Vec<String>> {
        self.file
    }

    /// The port, as a spec value.
    pub closed spec fn spec_port(&self) -> i32 {
        self.port
    }

    /// The debug count, as a spec value.
    pub closed spec fn spec_debug(&self) -> u8 {
        self.debug
    }

    /// The save directory, as a spec value.
    pub closed spec fn spec_save_path(&self) -> Seq<char> {
        self.save_path@
    }

    /// The allow-list, as a spec value.
    pub closed spec fn spec_whitelists(&self) -> Option<Vec<Ipv4Address>> {
        self.whitelists
    }

    /// The deny-list, as a spec value.
    pub closed spec fn spec_blacklists(&self) -> Option<Vec<Ipv4Address>> {
        self.blacklists
    }

    /// The seed string, as a spec value.
    pub closed spec fn spec_seed(&self) -> Seq<char> {
        self.seed@
    }

    /// Assemble a configuration from its parts.
    pub fn from_parts(
        secret: Option<Vec<Secret>>,
        message: Option<Vec<String>>,
        file: Option<Vec<String>>,
        port: i32,
        debug: u8,
        save_path: String,
        whitelists: Option<Vec<Ipv4Address>>,
        blacklists: Option<Vec<Ipv4Address>>,
        seed: String,
    ) -> (r: Config)
        ensures
            r.spec_secret() == secret,
            r.spec_message() == message,
            r.spec_file() == file,
            r.spec_port() == port,
            r.spec_debug() == debug,
            r.spec_save_path() == save_path@,
            r.spec_whitelists() == whitelists,
            r.spec_blacklists() == blacklists,
            r.spec_seed() == seed@,
    {
        Config { secret, message, file, port, debug, save_path, whitelists, blacklists, seed }
    }

    /// Build the configuration a plain command line yields: secrets
    /// parsed (the first malformed one is the error), the port
    /// defaulted to 0, no address policy, and the given save directory
    /// and seed.
    #[verifier::loop_isolation(false)]
    pub fn from_cli_parts(opts: &Cli, save_path: String, seed: String) -> (r: Result<
        Config,
        SecretError,
    >)
        ensures
            r is Ok <==> all_secrets_parse(opts.secret),
            r is Err ==> (opts.secret matches Some(ss) && {
                let b = first_bad_secret(ss@);
                &&& 0 <= b < ss@.len()
                &&& (comma_count(ss@[b]@) == 0 ==> (r->Err_0 matches SecretError::NotFound(t)
                    && t@ == ss@[b]@))
                &&& (comma_count(ss@[b]@) >= 2 ==> r->Err_0 == SecretError::Incompatible)
            }),
            r matches Ok(c) ==> {
                &&& (c.spec_secret() is Some <==> opts.secret is Some)
                &&& (opts.secret matches Some(ss) ==> {
                    &&& c.spec_secret()->0@.len() == ss@.len()
                    &&& forall|i: int|
                        0 <= i < ss@.len() ==> Some(
                            (
                                (#[trigger] c.spec_secret()->0@[i]).key@,
                                c.spec_secret()->0@[i].value@,
                            ),
                        ) == parse_secret_spec(ss@[i]@)
                })
                &&& (c.spec_message() is Some <==> opts.message is Some)
                &&& (opts.message matches Some(ms) ==> c.spec_message()->0@ == ms@)
                &&& (c.spec_file() is Some <==> opts.file is Some)
                &&& (opts.file matches Some(fs) ==> c.spec_file()->0@ == fs@)
                &&& c.spec_port() == (if opts.port is Some {
                    opts.port->0
                } else {
                    0i32
                })
                &&& c.spec_debug() == opts.debug
                &&& c.spec_save_path() == save_path@
                &&& c.spec_whitelists() is None
                &&& c.spec_blacklists() is None
                &&& c.spec_seed() == seed@
            },
    {
        let secret: Option<Vec<Secret>> = match &opts.secret {
            Option::None => Option::None,
            Option::Some(ss) => {
                let mut parsed: Vec<Secret> = Vec::new();
                let mut i: usize = 0;
                while i < ss.len()
                    invariant
                        i <= ss@.len(),
                        parsed@.len() == i,
                        forall|j: int|
                            0 <= j < i ==> comma_count(#[trigger] ss@[j]@) == 1,
                        forall|j: int|
                            0 <= j < i ==> Some(
                                ((#[trigger] parsed@[j]).key@, parsed@[j].value@),
                            ) == parse_secret_spec(ss@[j]@),
                    decreases ss@.len() - i,
                {
                    match Secret::secret_from_string(ss[i].clone()) {
                        Result::Ok(s) => parsed.push(s),
                        Result::Err(e) => {
                            proof {
                                assert(comma_count(ss@[i as int]@) != 1);
                                assert(!all_parse(ss@));
                                lemma_first_bad_secret(ss@, i as int);
                            }
                            return Result::Err(e);
                        },
                    }
                    i += 1;
                }
                proof {
                    assert(all_parse(ss@));
                }
                Option::Some(parsed)
            },
        };
        let message = strutil::clone_opt_string_vec(&opts.message);
        let file = strutil::clone_opt_string_vec(&opts.file);
        let port: i32 = match opts.port {
            Option::Some(p) => p,
            Option::None => 0,
        };
        Result::Ok(
            Config {
                secret,
                message,
                file,
                port,
                debug: opts.debug,
                save_path,
                whitelists: Option::None,
                blacklists: Option::None,
                seed,
            },
        )
    }

    /// The save directory a configuration file names, with the word
    /// `default` standing for the platform's local data directory.
    pub fn resolve_save_path(configured: String, default_dir: String) -> (r: String)
        ensures
            configured@ == "default"@ ==> r@ == default_dir@,
            configured@ != "default"@ ==> r@ == configured@,
    {
        if strutil::str_eq(configured.as_str(), "default") {
            default_dir
        } else {
            configured
        }
    }

    /// Whether debug output was asked for.
    pub fn verbose(&self) -> (r: bool)
        ensures
            r == (self.spec_debug() != 0),
    {
        self.debug != 0
    }

    /// The port to establish the connection on; 0 means ephemeral.
    pub fn port(&self) -> (r: i32)
        ensures
            r == self.spec_port(),
    {
        self.port
    }

    /// The file paths to send.
    pub fn file(&self) -> (r: Option<Vec<String>>)
        ensures
            r is Some <==> self.spec_file() is Some,
            r matches Some(v) ==> v@ == self.spec_file()->0@,
    {
        strutil::clone_opt_string_vec(&self.file)
    }

    /// The messages to send.
    pub fn message(&self) -> (r: Option<Vec<String>>)
        ensures
            r is Some <==> self.spec_message() is Some,
            r matches Some(v) ==> v@ == self.spec_message()->0@,
    {
        strutil::clone_opt_string_vec(&self.message)
    }

    /// The parsed secrets to send.
    pub fn secret(&self) -> (r: Option<Vec<Secret>>)
        ensures
            r is Some <==> self.spec_secret() is Some,
            r matches Some(v) ==> v@ == self.spec_secret()->0@,
    {
        match &self.secret {
            Option::None => Option::None,
            Option::Some(v) => {
                let mut out: Vec<Secret> = Vec::new();
                let mut i: usize = 0;
                while i < v.len()
                    invariant
                        i <= v@.len(),
                        out@.len() == i,
                        forall|j: int| 0 <= j < i ==> out@[j] == v@[j],
                    decreases v@.len() - i,
                {
                    out.push(Secret { key: v[i].key.clone(), value: v[i].value.clone() });
                    i += 1;
                }
                proof {
                    assert(out@ =~= v@);
                }
                Option::Some(out)
            },
        }
    }

    /// The directory received items are saved under.
    pub fn save_path(&self) -> (r: String)
        ensures
            r@ == self.spec_save_path(),
    {
        self.save_path.clone()
    }

    /// The allow-list, when one is configured.
    pub fn whitelists(&self) -> (r: Option<Vec<Ipv4Address>>)
        ensures
            r is Some <==> self.spec_whitelists() is Some,
            r matches Some(v) ==> v@ == self.spec_whitelists()->0@,
    {
        strutil::copy_opt_vec(&self.whitelists)
    }

    /// The deny-list, when one is configured.
    pub fn blacklists(&self) -> (r: Option<Vec<Ipv4Address>>)
        ensures
            r is Some <==> self.spec_blacklists() is Some,
            r matches Some(v) ==> v@ == self.spec_blacklists()->0@,
    {
        strutil::copy_opt_vec(&self.blacklists)
    }

    /// Pad a seed string on the right with spaces to 32 characters and
    /// truncate it to 32: the result always has exactly 32 characters,
    /// opening with the seed.
    pub fn pad_seed_key(&self, s: String) -> (r: String)
        ensures
            r@ == pad_spec(s@),
            r@.len() == 32,
    {
        let cs = strutil::str_chars(s.as_str());
        let mut out: Vec<char> = Vec::new();
        let mut i: usize = 0;
        while i < 32
            invariant
                i <= 32,
                out@.len() == i,
                cs@ == s@,
                forall|j: int|
                    0 <= j < i ==> out@[j] == (if j < s@.len() {
                        s@[j]
                    } else {
                        ' '
                    }),
            decreases 32 - i,
        {
            if i < cs.len() {
                out.push(cs[i]);
            } else {
                out.push(' ');
            }
            i += 1;
        }
        proof {
            assert(out@ =~= pad_spec(s@));
        }
        strutil::chars_string(&out)
    }

    /// The padded seed, as the operator sees it: the seed string,
    /// padded and truncated to exactly 32 characters.
    pub fn seed_key(&self) -> (r: String)
        ensures
            r@ == pad_spec(self.spec_seed()),
            r@.len() == 32,
    {
        let seed = self.seed.clone();
        self.pad_seed_key(seed)
    }

    /// The key material of this run: the seed's UTF-8 bytes, padded
    /// with spaces and truncated to exactly 32 bytes.  Every seed
    /// yields valid key material.
    pub fn seed_key_bytes(&self) -> (r: Vec<u8>)
        ensures
            r@ == seed_material(self.spec_seed()),
            r@.len() == 32,
    {
        let raw = self.seed.as_str().as_bytes_vec();
        let mut out: Vec<u8> = Vec::new();
        let mut i: usize = 0;
        while i < 32
            invariant
                i <= 32,
                out@.len() == i,
                raw@ == encode_utf8(self.spec_seed()),
                forall|j: int|
                    0 <= j < i ==> out@[j] == (if j < raw@.len() {
                        raw@[j]
                    } else {
                        32u8
                    }),
            decreases 32 - i,
        {
            if i < raw.len() {
                out.push(raw[i]);
            } else {
                out.push(32u8);
            }
            i += 1;
        }
        proof {
            assert(out@ =~= seed_material(self.spec_seed()));
        }
        out
    }
}

} // verus!
