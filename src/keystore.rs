//! The keystore's decisions. Keys live under a keys directory with a
//! `public` and a `private` subdirectory, as `<name>.pub` and `<name>.key`.
//! Touching the disk is the caller's part: these functions build paths,
//! choose between candidates whose existence the caller reports, and judge
//! permission bits.

use vstd::prelude::*;
use vstd::string::StringExecFns;
use crate::error::PurrError;

verus! {

/// Owner read and write only: the mode of a private key file.
pub const PRIVATE_KEY_MODE: u32 = 0o600;

/// Owner access only: the mode of the private key directory.
pub const PRIVATE_DIR_MODE: u32 = 0o700;

/// The permission bits of group and others.
pub const GROUP_WORLD_BITS: u32 = 0o077;

/// The directory layout of a keystore.
pub struct Keystore {
    pub home_dir: String,
    pub keys_dir: String,
}

/// No permission bit is set for the group or for others.
pub open spec fn denies_group_world(mode: u32) -> bool {
    mode & GROUP_WORLD_BITS == 0
}

pub open spec fn public_path_of(keys_dir: Seq<char>, name: Seq<char>) -> Seq<char> {
    keys_dir + "/public/"@ + name + ".pub"@
}

pub open spec fn private_path_of(keys_dir: Seq<char>, name: Seq<char>) -> Seq<char> {
    keys_dir + "/private/"@ + name + ".key"@
}

pub open spec fn key_path_of(keys_dir: Seq<char>, name: Seq<char>, want_public: bool) -> Seq<char> {
    if want_public {
        public_path_of(keys_dir, name)
    } else {
        private_path_of(keys_dir, name)
    }
}

impl Keystore {
    /// The keystore under home directory `home`: `<home>/.purr`, with its keys
    /// in `<home>/.purr/keys`.
    pub fn at(home: &str) -> (r: Keystore)
        ensures
            r.home_dir@ == home@ + "/.purr"@,
            r.keys_dir@ == home@ + "/.purr"@ + "/keys"@,
    {
        let home_dir = String::from_str(home).concat("/.purr");
        let keys_dir = home_dir.clone().concat("/keys");
        Keystore { home_dir, keys_dir }
    }

    /// The directory of public keys.
    pub fn public_dir(&self) -> (r: String)
        ensures
            r@ == self.keys_dir@ + "/public"@,
    {
        self.keys_dir.clone().concat("/public")
    }

    /// The directory of private keys.
    pub fn private_dir(&self) -> (r: String)
        ensures
            r@ == self.keys_dir@ + "/private"@,
    {
        self.keys_dir.clone().concat("/private")
    }

    /// Where the public and the private key named `name` live. Nothing is
    /// checked on disk.
    pub fn get_key_paths(&self, name: &str) -> (r: (String, String))
        ensures
            r.0@ == public_path_of(self.keys_dir@, name@),
            r.1@ == private_path_of(self.keys_dir@, name@),
    {
        let public = self.keys_dir.clone().concat("/public/").concat(name).concat(".pub");
        let private = self.keys_dir.clone().concat("/private/").concat(name).concat(".key");
        (public, private)
    }

    /// Where the key named `name` lives, its public or its private half.
    pub fn key_path(&self, name: &str, want_public: bool) -> (r: String)
        ensures
            r@ == key_path_of(self.keys_dir@, name@, want_public),
    {
        let (public, private) = self.get_key_paths(name);
        if want_public {
            public
        } else {
            private
        }
    }

    /// Resolves a key reference. `reference_exists` tells whether `reference`
    /// names an existing file, `named_exists` whether the keystore holds a key
    /// of that name in the wanted half. An existing path is taken as it is;
    /// otherwise the reference is a key name.
    pub fn resolve_key(
        &self,
        reference: &str,
        reference_exists: bool,
        named_exists: bool,
        want_public: bool,
    ) -> (r: Result<String, PurrError>)
        ensures
            reference_exists ==> r is Ok && r->Ok_0@ == reference@,
            !reference_exists && named_exists ==> r is Ok && r->Ok_0@ == key_path_of(
                self.keys_dir@,
                reference@,
                want_public,
            ),
            !reference_exists && !named_exists ==> r == Err::<String, PurrError>(
                PurrError::KeyNotFound,
            ),
    {
        if reference_exists {
            Ok(String::from_str(reference))
        } else if named_exists {
            Ok(self.key_path(reference, want_public))
        } else {
            Err(PurrError::KeyNotFound)
        }
    }

    /// Where an imported key file called `file_name` is stored.
    pub fn import_destination(&self, file_name: &str, is_public: bool) -> (r: String)
        ensures
            is_public ==> r@ == self.keys_dir@ + "/public/"@ + file_name@,
            !is_public ==> r@ == self.keys_dir@ + "/private/"@ + file_name@,
    {
        if is_public {
            self.keys_dir.clone().concat("/public/").concat(file_name)
        } else {
            self.keys_dir.clone().concat("/private/").concat(file_name)
        }
    }
}

/// The mode an imported key file is given: private keys are readable and
/// writable by their owner alone; public keys keep the mode they were copied with.
pub fn import_mode(is_public: bool) -> (r: Option<u32>)
    ensures
        is_public ==> r is None,
        !is_public ==> r == Some(PRIVATE_KEY_MODE) && denies_group_world(r->0),
{
    if is_public {
        None
    } else {
        assert(PRIVATE_KEY_MODE & GROUP_WORLD_BITS == 0) by (bit_vector);
        Some(PRIVATE_KEY_MODE)
    }
}

/// Whether `mode` denies the group and others all access.
pub fn mode_is_private(mode: u32) -> (r: bool)
    ensures
        r == denies_group_world(mode),
{
    mode & GROUP_WORLD_BITS == 0
}

/// Whether the private key directory and every private key file deny the
/// group and others all access. A `false` is a warning for the caller to
/// report; it does not stop the command.
pub fn permissions_are_strict(dir_mode: u32, file_modes: &[u32]) -> (r: bool)
    ensures
        r == (denies_group_world(dir_mode) && forall|i: int|
            0 <= i < file_modes@.len() ==> denies_group_world(#[trigger] file_modes@[i])),
{
    if !mode_is_private(dir_mode) {
        return false;
    }
    let mut i: usize = 0;
    while i < file_modes.len()
        invariant
            i <= file_modes@.len(),
            forall|j: int| 0 <= j < i ==> denies_group_world(#[trigger] file_modes@[j]),
        decreases file_modes@.len() - i,
    {
        if !mode_is_private(file_modes[i]) {
            return false;
        }
        i = i + 1;
    }
    true
}

} // verus!
