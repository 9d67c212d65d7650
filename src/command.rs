//! The command line grammar of the `purr` tool, as a function from the
//! argument list to a command. Reading the arguments is the caller's part.

use vstd::prelude::*;
use vstd::string::StringExecFns;

verus! {

/// Why an argument list names no complete command.
#[derive(Clone, Copy, Debug, PartialEq, Eq, Structural)]
pub enum ArgError {
    MissingDialect,
    MissingKeyFileToImport,
    MissingKeyFile,
    MissingRecipient,
    MissingOutputFile,
    MissingDialectOverride,
    MissingRecipientOption,
    MissingInputFile,
    MissingKey,
    MissingPrivateKeyOption,
}

pub open spec fn arg_error_message(e: ArgError) -> Seq<char> {
    match e {
        ArgError::MissingDialect => "Missing dialect (cat/dog)"@,
        ArgError::MissingKeyFileToImport => "Missing key file to import"@,
        ArgError::MissingKeyFile => "Missing key file"@,
        ArgError::MissingRecipient => "Missing recipient"@,
        ArgError::MissingOutputFile => "Missing output file"@,
        ArgError::MissingDialectOverride => "Missing dialect"@,
        ArgError::MissingRecipientOption => "Missing recipient (-r)"@,
        ArgError::MissingInputFile => "Missing input file"@,
        ArgError::MissingKey => "Missing key"@,
        ArgError::MissingPrivateKeyOption => "Missing private key (-k)"@,
    }
}

impl ArgError {
    /// The message shown to the user.
    pub fn message(&self) -> (r: String)
        ensures
            r@ == arg_error_message(*self),
    {
        match self {
            ArgError::MissingDialect => String::from_str("Missing dialect (cat/dog)"),
            ArgError::MissingKeyFileToImport => String::from_str("Missing key file to import"),
            ArgError::MissingKeyFile => String::from_str("Missing key file"),
            ArgError::MissingRecipient => String::from_str("Missing recipient"),
            ArgError::MissingOutputFile => String::from_str("Missing output file"),
            ArgError::MissingDialectOverride => String::from_str("Missing dialect"),
            ArgError::MissingRecipientOption => String::from_str("Missing recipient (-r)"),
            ArgError::MissingInputFile => String::from_str("Missing input file"),
            ArgError::MissingKey => String::from_str("Missing key"),
            ArgError::MissingPrivateKeyOption => String::from_str("Missing private key (-k)"),
        }
    }
}

/// A command of the tool, with its arguments as given.
#[allow(inconsistent_fields)]
pub enum Command {
    GenerateKey { name: Option<String> },
    Encrypt {
        recipient_key: String,
        input_file: String,
        output_file: Option<String>,
        dialect: Option<String>,
    },
    Decrypt { private_key: String, input_file: String, output_file: Option<String> },
    ImportKey { key_path: String, is_public: bool },
    SetDialect { dialect: String },
    ListKeys,
    Help,
}

/// A command with its arguments as character sequences.
#[allow(inconsistent_fields)]
pub enum CommandView {
    GenerateKey { name: Option<Seq<char>> },
    Encrypt {
        recipient_key: Seq<char>,
        input_file: Seq<char>,
        output_file: Option<Seq<char>>,
        dialect: Option<Seq<char>>,
    },
    Decrypt { private_key: Seq<char>, input_file: Seq<char>, output_file: Option<Seq<char>> },
    ImportKey { key_path: Seq<char>, is_public: bool },
    SetDialect { dialect: Seq<char> },
    ListKeys,
    Help,
}

pub open spec fn opt_view(o: Option<String>) -> Option<Seq<char>> {
    match o {
        Some(s) => Some(s@),
        None => None,
    }
}

impl View for Command {
    type V = CommandView;

    open spec fn view(&self) -> CommandView {
        match self {
            Command::GenerateKey { name } => CommandView::GenerateKey { name: opt_view(*name) },
            Command::Encrypt { recipient_key, input_file, output_file, dialect } => {
                CommandView::Encrypt {
                    recipient_key: recipient_key@,
                    input_file: input_file@,
                    output_file: opt_view(*output_file),
                    dialect: opt_view(*dialect),
                }
            },
            Command::Decrypt { private_key, input_file, output_file } => CommandView::Decrypt {
                private_key: private_key@,
                input_file: input_file@,
                output_file: opt_view(*output_file),
            },
            Command::ImportKey { key_path, is_public } => CommandView::ImportKey {
                key_path: key_path@,
                is_public: *is_public,
            },
            Command::SetDialect { dialect } => CommandView::SetDialect { dialect: dialect@ },
            Command::ListKeys => CommandView::ListKeys,
            Command::Help => CommandView::Help,
        }
    }
}

pub open spec fn is_verbose_flag(a: Seq<char>) -> bool {
    a == "-v"@ || a == "--verbose"@
}

pub open spec fn not_verbose() -> spec_fn(Seq<char>) -> bool {
    |a: Seq<char>| !is_verbose_flag(a)
}

pub open spec fn arg_views(args: Seq<String>) -> Seq<Seq<char>> {
    args.map_values(|s: String| s@)
}

/// The options of `encrypt` gathered so far: recipient, input, output, dialect.
pub type EncryptScan = (Option<Seq<char>>, Option<Seq<char>>, Option<Seq<char>>, Option<Seq<char>>);

/// The options of `decrypt` gathered so far: key, input, output.
pub type DecryptScan = (Option<Seq<char>>, Option<Seq<char>>, Option<Seq<char>>);

/// Reads the options of `encrypt` from position `i` on. An option's value is
/// the next argument; the last value of an option wins; the first argument
/// that is no option is the input file.
pub open spec fn scan_encrypt(f: Seq<Seq<char>>, i: int, st: EncryptScan) -> Result<EncryptScan, ArgError>
    decreases f.len() - i,
{
    if i >= f.len() || i < 0 {
        Ok(st)
    } else if f[i] == "-r"@ || f[i] == "--recipient"@ {
        if i + 1 < f.len() {
            scan_encrypt(f, i + 2, (Some(f[i + 1]), st.1, st.2, st.3))
        } else {
            Err(ArgError::MissingRecipient)
        }
    } else if f[i] == "-o"@ || f[i] == "--output"@ {
        if i + 1 < f.len() {
            scan_encrypt(f, i + 2, (st.0, st.1, Some(f[i + 1]), st.3))
        } else {
            Err(ArgError::MissingOutputFile)
        }
    } else if f[i] == "--dialect"@ {
        if i + 1 < f.len() {
            scan_encrypt(f, i + 2, (st.0, st.1, st.2, Some(f[i + 1])))
        } else {
            Err(ArgError::MissingDialectOverride)
        }
    } else {
        scan_encrypt(f, i + 1, (st.0, if st.1 is None { Some(f[i]) } else { st.1 }, st.2, st.3))
    }
}

/// Reads the options of `decrypt` from position `i` on, as `scan_encrypt` does.
pub open spec fn scan_decrypt(f: Seq<Seq<char>>, i: int, st: DecryptScan) -> Result<DecryptScan, ArgError>
    decreases f.len() - i,
{
    if i >= f.len() || i < 0 {
        Ok(st)
    } else if f[i] == "-k"@ || f[i] == "--key"@ {
        if i + 1 < f.len() {
            scan_decrypt(f, i + 2, (Some(f[i + 1]), st.1, st.2))
        } else {
            Err(ArgError::MissingKey)
        }
    } else if f[i] == "-o"@ || f[i] == "--output"@ {
        if i + 1 < f.len() {
            scan_decrypt(f, i + 2, (st.0, st.1, Some(f[i + 1])))
        } else {
            Err(ArgError::MissingOutputFile)
        }
    } else {
        scan_decrypt(f, i + 1, (st.0, if st.1 is None { Some(f[i]) } else { st.1 }, st.2))
    }
}

pub open spec fn encrypt_command(r: Result<EncryptScan, ArgError>) -> Result<CommandView, ArgError> {
    match r {
        Err(e) => Err(e),
        Ok(st) => if st.0 is None {
            Err(ArgError::MissingRecipientOption)
        } else if st.1 is None {
            Err(ArgError::MissingInputFile)
        } else {
            Ok(
                CommandView::Encrypt {
                    recipient_key: st.0->0,
                    input_file: st.1->0,
                    output_file: st.2,
                    dialect: st.3,
                },
            )
        },
    }
}

pub open spec fn decrypt_command(r: Result<DecryptScan, ArgError>) -> Result<CommandView, ArgError> {
    match r {
        Err(e) => Err(e),
        Ok(st) => if st.0 is None {
            Err(ArgError::MissingPrivateKeyOption)
        } else if st.1 is None {
            Err(ArgError::MissingInputFile)
        } else {
            Ok(
                CommandView::Decrypt {
                    private_key: st.0->0,
                    input_file: st.1->0,
                    output_file: st.2,
                },
            )
        },
    }
}

/// The command that argument list `a` names, its first entry being the
/// program's name. The verbose flags may stand anywhere and are set aside first.
pub open spec fn parse_spec(a: Seq<Seq<char>>) -> Result<CommandView, ArgError> {
    let f = a.filter(not_verbose());
    if a.len() < 2 || f.len() < 2 {
        Ok(CommandView::Help)
    } else if f[1] == "set-dialect"@ {
        if f.len() > 2 {
            Ok(CommandView::SetDialect { dialect: f[2] })
        } else {
            Err(ArgError::MissingDialect)
        }
    } else if f[1] == "genkey"@ {
        Ok(
            CommandView::GenerateKey {
                name: if f.len() > 2 {
                    Some(f[2])
                } else {
                    None
                },
            },
        )
    } else if f[1] == "import-key"@ {
        if f.len() < 3 {
            Err(ArgError::MissingKeyFileToImport)
        } else if f[2] == "--public"@ {
            if f.len() > 3 {
                Ok(CommandView::ImportKey { key_path: f[3], is_public: true })
            } else {
                Err(ArgError::MissingKeyFile)
            }
        } else {
            Ok(CommandView::ImportKey { key_path: f[2], is_public: false })
        }
    } else if f[1] == "list-keys"@ || f[1] == "listkeys"@ || f[1] == "-k"@ {
        Ok(CommandView::ListKeys)
    } else if f[1] == "encrypt"@ || f[1] == "-e"@ {
        encrypt_command(scan_encrypt(f, 2, (None, None, None, None)))
    } else if f[1] == "decrypt"@ || f[1] == "-d"@ {
        decrypt_command(scan_decrypt(f, 2, (None, None, None)))
    } else {
        Ok(CommandView::Help)
    }
}

/// Whether `s` reads `w`.
fn is_word(s: &String, w: &str) -> (r: bool)
    ensures
        r == (s@ == w@),
{
    *s == String::from_str(w)
}

/// Whether verbose output is asked for anywhere in `args`.
pub fn is_verbose(args: &Vec<String>) -> (r: bool)
    ensures
        r == exists|i: int| 0 <= i < args@.len() && is_verbose_flag(#[trigger] args@[i]@),
{
    let mut i: usize = 0;
    while i < args.len()
        invariant
            i <= args@.len(),
            forall|j: int| 0 <= j < i ==> !is_verbose_flag(#[trigger] args@[j]@),
        decreases args@.len() - i,
    {
        if is_word(&args[i], "-v") || is_word(&args[i], "--verbose") {
            return true;
        }
        i = i + 1;
    }
    false
}

/// The arguments without the verbose flags.
fn without_verbose(args: &Vec<String>) -> (r: Vec<String>)
    ensures
        arg_views(r@) == arg_views(args@).filter(not_verbose()),
{
    let mut kept: Vec<String> = Vec::new();
    let mut i: usize = 0;
    while i < args.len()
        invariant
            i <= args@.len(),
            arg_views(kept@) == arg_views(args@.take(i as int)).filter(not_verbose()),
        decreases args@.len() - i,
    {
        let ghost prev = arg_views(args@.take(i as int));
        assert(arg_views(args@.take(i + 1)) =~= prev.push(args@[i as int]@));
        assert(prev.push(args@[i as int]@).drop_last() =~= prev);
        reveal_with_fuel(Seq::<_>::filter, 1);
        assert(prev.push(args@[i as int]@).filter(not_verbose()) == if (not_verbose())(
            args@[i as int]@,
        ) {
            prev.filter(not_verbose()).push(args@[i as int]@)
        } else {
            prev.filter(not_verbose())
        });
        let ghost before = kept@;
        if !(is_word(&args[i], "-v") || is_word(&args[i], "--verbose")) {
            let a = args[i].clone();
            kept.push(a);
            assert(arg_views(kept@) =~= arg_views(before).push(args@[i as int]@));
        }
        i = i + 1;
    }
    assert(args@.take(args@.len() as int) =~= args@);
    kept
}

pub open spec fn parse_outcome(r: Result<Command, ArgError>, expected: Result<CommandView, ArgError>) -> bool {
    match expected {
        Ok(c) => r is Ok && r->Ok_0@ == c,
        Err(e) => r == Err::<Command, ArgError>(e),
    }
}

/// Reads the options of `encrypt`, which follow the command word in `f`.
fn parse_encrypt_options(f: &Vec<String>) -> (r: Result<Command, ArgError>)
    requires
        f@.len() >= 2,
    ensures
        parse_outcome(r, encrypt_command(scan_encrypt(arg_views(f@), 2, (None, None, None, None)))),
{
    let ghost fv = arg_views(f@);
    let mut i: usize = 2;
    let mut recipient: Option<String> = None;
    let mut input: Option<String> = None;
    let mut output: Option<String> = None;
    let mut dialect: Option<String> = None;
    while i < f.len()
        invariant
            2 <= i <= f@.len(),
            fv == arg_views(f@),
            scan_encrypt(fv, 2, (None, None, None, None)) == scan_encrypt(
                fv,
                i as int,
                (opt_view(recipient), opt_view(input), opt_view(output), opt_view(dialect)),
            ),
        decreases f@.len() - i,
    {
        assert(fv[i as int] == f@[i as int]@);
        if is_word(&f[i], "-r") || is_word(&f[i], "--recipient") {
            if i + 1 < f.len() {
                recipient = Some(f[i + 1].clone());
                i = i + 2;
            } else {
                return Err(ArgError::MissingRecipient);
            }
        } else if is_word(&f[i], "-o") || is_word(&f[i], "--output") {
            if i + 1 < f.len() {
                output = Some(f[i + 1].clone());
                i = i + 2;
            } else {
                return Err(ArgError::MissingOutputFile);
            }
        } else if is_word(&f[i], "--dialect") {
            if i + 1 < f.len() {
                dialect = Some(f[i + 1].clone());
                i = i + 2;
            } else {
                return Err(ArgError::MissingDialectOverride);
            }
        } else {
            if input.is_none() {
                input = Some(f[i].clone());
            }
            i = i + 1;
        }
    }
    match (recipient, input) {
        (Some(recipient_key), Some(input_file)) => Ok(
            Command::Encrypt { recipient_key, input_file, output_file: output, dialect },
        ),
        (None, _) => Err(ArgError::MissingRecipientOption),
        (Some(_), None) => Err(ArgError::MissingInputFile),
    }
}

/// Reads the options of `decrypt`, which follow the command word in `f`.
fn parse_decrypt_options(f: &Vec<String>) -> (r: Result<Command, ArgError>)
    requires
        f@.len() >= 2,
    ensures
        parse_outcome(r, decrypt_command(scan_decrypt(arg_views(f@), 2, (None, None, None)))),
{
    let ghost fv = arg_views(f@);
    let mut i: usize = 2;
    let mut key: Option<String> = None;
    let mut input: Option<String> = None;
    let mut output: Option<String> = None;
    while i < f.len()
        invariant
            2 <= i <= f@.len(),
            fv == arg_views(f@),
            scan_decrypt(fv, 2, (None, None, None)) == scan_decrypt(
                fv,
                i as int,
                (opt_view(key), opt_view(input), opt_view(output)),
            ),
        decreases f@.len() - i,
    {
        assert(fv[i as int] == f@[i as int]@);
        if is_word(&f[i], "-k") || is_word(&f[i], "--key") {
            if i + 1 < f.len() {
                key = Some(f[i + 1].clone());
                i = i + 2;
            } else {
                return Err(ArgError::MissingKey);
            }
        } else if is_word(&f[i], "-o") || is_word(&f[i], "--output") {
            if i + 1 < f.len() {
                output = Some(f[i + 1].clone());
                i = i + 2;
            } else {
                return Err(ArgError::MissingOutputFile);
            }
        } else {
            if input.is_none() {
                input = Some(f[i].clone());
            }
            i = i + 1;
        }
    }
    match (key, input) {
        (Some(private_key), Some(input_file)) => Ok(
            Command::Decrypt { private_key, input_file, output_file: output },
        ),
        (None, _) => Err(ArgError::MissingPrivateKeyOption),
        (Some(_), None) => Err(ArgError::MissingInputFile),
    }
}

/// The command that argument list `args` names, its first entry being the
/// program's name. An unknown command word, or none, asks for help.
pub fn parse_args(args: &Vec<String>) -> (r: Result<Command, ArgError>)
    ensures
        parse_outcome(r, parse_spec(arg_views(args@))),
{
    if args.len() < 2 {
        return Ok(Command::Help);
    }
    let f = without_verbose(args);
    let ghost fv = arg_views(f@);
    assert(fv == arg_views(args@).filter(not_verbose()));
    if f.len() < 2 {
        return Ok(Command::Help);
    }
    assert(fv[1] == f@[1]@);
    let cmd = &f[1];
    if is_word(cmd, "set-dialect") {
        if f.len() > 2 {
            assert(fv[2] == f@[2]@);
            Ok(Command::SetDialect { dialect: f[2].clone() })
        } else {
            Err(ArgError::MissingDialect)
        }
    } else if is_word(cmd, "genkey") {
        if f.len() > 2 {
            assert(fv[2] == f@[2]@);
            Ok(Command::GenerateKey { name: Some(f[2].clone()) })
        } else {
            Ok(Command::GenerateKey { name: None })
        }
    } else if is_word(cmd, "import-key") {
        if f.len() < 3 {
            return Err(ArgError::MissingKeyFileToImport);
        }
        assert(fv[2] == f@[2]@);
        if is_word(&f[2], "--public") {
            if f.len() > 3 {
                assert(fv[3] == f@[3]@);
                Ok(Command::ImportKey { key_path: f[3].clone(), is_public: true })
            } else {
                Err(ArgError::MissingKeyFile)
            }
        } else {
            Ok(Command::ImportKey { key_path: f[2].clone(), is_public: false })
        }
    } else if is_word(cmd, "list-keys") || is_word(cmd, "listkeys") || is_word(cmd, "-k") {
        Ok(Command::ListKeys)
    } else if is_word(cmd, "encrypt") || is_word(cmd, "-e") {
        parse_encrypt_options(&f)
    } else if is_word(cmd, "decrypt") || is_word(cmd, "-d") {
        parse_decrypt_options(&f)
    } else {
        Ok(Command::Help)
    }
}

} // verus!
