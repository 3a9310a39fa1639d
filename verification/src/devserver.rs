//! The command line of the local development server.

use vstd::prelude::*;
use crate::text::{parse_u64, parse_u64_spec, same_text};
use wtransport::Identity;
use wtransport::tls::error::InvalidSan;

verus! {

/// The development server's settings, as plain text and numbers.
pub struct ServerArgsModel {
    pub listen: Seq<char>,
    pub cert: Option<Seq<char>>,
    pub key: Option<Seq<char>>,
    pub reject: bool,
    pub accept_delay_ms: u64,
    pub generated_sans: Seq<Seq<char>>,
    pub expired: bool,
    pub write_generated_cert: Option<Seq<char>>,
}

/// Why a command line is refused.
pub enum ArgsErrorModel {
    MissingValue(Seq<char>),
    InvalidAddress(Seq<char>),
    InvalidDelay(Seq<char>),
    UnknownArgument(Seq<char>),
    CertKeyMismatch,
    GeneratedOnlyOptions,
}

/// What a command line asks for.
pub enum ParseModel {
    Run(ServerArgsModel),
    Help,
    Fail(ArgsErrorModel),
}

/// The settings before any argument: listen on `127.0.0.1:4433` with a
/// generated certificate, accept at once.
pub open spec fn default_server_args() -> ServerArgsModel {
    ServerArgsModel {
        listen: "127.0.0.1:4433"@,
        cert: None,
        key: None,
        reject: false,
        accept_delay_ms: 0,
        generated_sans: Seq::empty(),
        expired: false,
        write_generated_cert: None,
    }
}

/// The checks made once every argument is read: a certificate and a key
/// come together, and `--expired` and `--san` only shape a generated
/// certificate.
pub open spec fn finish_args(acc: ServerArgsModel) -> ParseModel {
    if acc.cert.is_some() != acc.key.is_some() {
        ParseModel::Fail(ArgsErrorModel::CertKeyMismatch)
    } else if acc.cert.is_some() && (acc.expired || acc.generated_sans.len() > 0) {
        ParseModel::Fail(ArgsErrorModel::GeneratedOnlyOptions)
    } else {
        ParseModel::Run(acc)
    }
}

/// Reads the arguments from position `i` on, on top of the settings `acc`;
/// `address_ok[j]` tells whether argument `j` is a valid socket address.
pub open spec fn parse_from(
    args: Seq<Seq<char>>,
    address_ok: Seq<bool>,
    i: int,
    acc: ServerArgsModel,
) -> ParseModel
    decreases args.len() - i,
{
    if i >= args.len() || i < 0 {
        finish_args(acc)
    } else {
        let a = args[i];
        let has_value = i + 1 < args.len();
        if a == "--listen"@ {
            if !has_value {
                ParseModel::Fail(ArgsErrorModel::MissingValue("--listen requires an address"@))
            } else if !address_ok[i + 1] {
                ParseModel::Fail(ArgsErrorModel::InvalidAddress(args[i + 1]))
            } else {
                parse_from(args, address_ok, i + 2, ServerArgsModel { listen: args[i + 1], ..acc })
            }
        } else if a == "--cert"@ {
            if !has_value {
                ParseModel::Fail(ArgsErrorModel::MissingValue("--cert requires a path"@))
            } else {
                parse_from(args, address_ok, i + 2, ServerArgsModel { cert: Some(args[i + 1]), ..acc })
            }
        } else if a == "--key"@ {
            if !has_value {
                ParseModel::Fail(ArgsErrorModel::MissingValue("--key requires a path"@))
            } else {
                parse_from(args, address_ok, i + 2, ServerArgsModel { key: Some(args[i + 1]), ..acc })
            }
        } else if a == "--reject"@ {
            parse_from(args, address_ok, i + 1, ServerArgsModel { reject: true, ..acc })
        } else if a == "--accept-delay-ms"@ {
            if !has_value {
                ParseModel::Fail(ArgsErrorModel::MissingValue("--accept-delay-ms requires a value"@))
            } else {
                match parse_u64_spec(args[i + 1]) {
                    None => ParseModel::Fail(ArgsErrorModel::InvalidDelay(args[i + 1])),
                    Some(v) => parse_from(
                        args,
                        address_ok,
                        i + 2,
                        ServerArgsModel { accept_delay_ms: v, ..acc },
                    ),
                }
            }
        } else if a == "--san"@ {
            if !has_value {
                ParseModel::Fail(ArgsErrorModel::MissingValue("--san requires a value"@))
            } else {
                parse_from(
                    args,
                    address_ok,
                    i + 2,
                    ServerArgsModel { generated_sans: acc.generated_sans.push(args[i + 1]), ..acc },
                )
            }
        } else if a == "--expired"@ {
            parse_from(args, address_ok, i + 1, ServerArgsModel { expired: true, ..acc })
        } else if a == "--write-generated-cert"@ {
            if !has_value {
                ParseModel::Fail(
                    ArgsErrorModel::MissingValue("--write-generated-cert requires a path"@),
                )
            } else {
                parse_from(
                    args,
                    address_ok,
                    i + 2,
                    ServerArgsModel { write_generated_cert: Some(args[i + 1]), ..acc },
                )
            }
        } else if a == "--help"@ || a == "-h"@ {
            ParseModel::Help
        } else {
            ParseModel::Fail(ArgsErrorModel::UnknownArgument(a))
        }
    }
}

/// The development server's settings.
pub struct DevServerArgs {
    pub listen: String,
    pub cert: Option<String>,
    pub key: Option<String>,
    pub reject: bool,
    pub accept_delay_ms: u64,
    pub generated_sans: Vec<String>,
    pub expired: bool,
    pub write_generated_cert: Option<String>,
}

/// The text of an optional string.
pub open spec fn opt_text(s: Option<String>) -> Option<Seq<char>> {
    match s {
        Some(t) => Some(t@),
        None => None,
    }
}

/// The texts of a list of strings.
pub open spec fn texts(v: Seq<String>) -> Seq<Seq<char>> {
    v.map_values(|s: String| s@)
}

impl View for DevServerArgs {
    type V = ServerArgsModel;

    open spec fn view(&self) -> ServerArgsModel {
        ServerArgsModel {
            listen: self.listen@,
            cert: opt_text(self.cert),
            key: opt_text(self.key),
            reject: self.reject,
            accept_delay_ms: self.accept_delay_ms,
            generated_sans: texts(self.generated_sans@),
            expired: self.expired,
            write_generated_cert: opt_text(self.write_generated_cert),
        }
    }
}

/// Why a command line is refused; a missing value carries its message.
pub enum DevServerArgError {
    MissingValue(String),
    InvalidAddress(String),
    InvalidDelay(String),
    UnknownArgument(String),
    CertKeyMismatch,
    GeneratedOnlyOptions,
}

impl View for DevServerArgError {
    type V = ArgsErrorModel;

    open spec fn view(&self) -> ArgsErrorModel {
        match self {
            DevServerArgError::MissingValue(m) => ArgsErrorModel::MissingValue(m@),
            DevServerArgError::InvalidAddress(a) => ArgsErrorModel::InvalidAddress(a@),
            DevServerArgError::InvalidDelay(a) => ArgsErrorModel::InvalidDelay(a@),
            DevServerArgError::UnknownArgument(a) => ArgsErrorModel::UnknownArgument(a@),
            DevServerArgError::CertKeyMismatch => ArgsErrorModel::CertKeyMismatch,
            DevServerArgError::GeneratedOnlyOptions => ArgsErrorModel::GeneratedOnlyOptions,
        }
    }
}

impl DevServerArgError {
    /// The text that refuses the command line: the missing value's message,
    /// `unknown argument: ` and the argument, or the rule that the settings
    /// break. An invalid address or delay has none here: its text is the
    /// refusal of the parse that judged the value.
    pub fn message(&self) -> (m: Option<String>)
        ensures
            match self {
                DevServerArgError::MissingValue(t) => m matches Some(x) && x@ == t@,
                DevServerArgError::UnknownArgument(a) => m matches Some(x) && x@
                    == "unknown argument: "@ + a@,
                DevServerArgError::CertKeyMismatch => m matches Some(x) && x@
                    == "--cert and --key must be specified together"@,
                DevServerArgError::GeneratedOnlyOptions => m matches Some(x) && x@
                    == "--expired and --san apply only to generated certificates"@,
                DevServerArgError::InvalidAddress(_) => m is None,
                DevServerArgError::InvalidDelay(_) => m is None,
            },
    {
        match self {
            DevServerArgError::MissingValue(t) => Some(t.clone()),
            DevServerArgError::UnknownArgument(a) => {
                let prefix = String::from_str("unknown argument: ");
                Some(prefix.concat(a.as_str()))
            },
            DevServerArgError::CertKeyMismatch => Some(
                String::from_str("--cert and --key must be specified together"),
            ),
            DevServerArgError::GeneratedOnlyOptions => Some(
                String::from_str("--expired and --san apply only to generated certificates"),
            ),
            DevServerArgError::InvalidAddress(_) => None,
            DevServerArgError::InvalidDelay(_) => None,
        }
    }
}

/// What a command line asks for.
pub enum DevServerCommand {
    Run(DevServerArgs),
    Help,
}

/// The outcome that `parse_dev_server_args` gives, as a model.
pub open spec fn outcome_model(r: Result<DevServerCommand, DevServerArgError>) -> ParseModel {
    match r {
        Ok(DevServerCommand::Run(a)) => ParseModel::Run(a@),
        Ok(DevServerCommand::Help) => ParseModel::Help,
        Err(e) => ParseModel::Fail(e@),
    }
}

fn missing(message: &str) -> (e: DevServerArgError)
    ensures
        e@ == ArgsErrorModel::MissingValue(message@),
{
    DevServerArgError::MissingValue(String::from_str(message))
}

/// Reads the development server's command line `args` (without the
/// program's name); `address_ok[j]` tells whether `args[j]` is a valid
/// socket address.
pub fn parse_dev_server_args(args: &Vec<String>, address_ok: &Vec<bool>) -> (r: Result<
    DevServerCommand,
    DevServerArgError,
>)
    requires
        address_ok@.len() == args@.len(),
    ensures
        outcome_model(r) == parse_from(texts(args@), address_ok@, 0, default_server_args()),
{
    let ghost all = texts(args@);
    let mut acc = DevServerArgs {
        listen: String::from_str("127.0.0.1:4433"),
        cert: None,
        key: None,
        reject: false,
        accept_delay_ms: 0,
        generated_sans: Vec::new(),
        expired: false,
        write_generated_cert: None,
    };
    assert(texts(acc.generated_sans@) =~= Seq::<Seq<char>>::empty());
    let n = args.len();
    let mut i: usize = 0;
    while i < n
        invariant
            n == args@.len(),
            address_ok@.len() == n,
            all == texts(args@),
            i <= n,
            parse_from(all, address_ok@, i as int, acc@) == parse_from(
                all,
                address_ok@,
                0,
                default_server_args(),
            ),
        decreases n - i,
    {
        let a = args[i].as_str();
        let has_value = i + 1 < n;
        assert(all[i as int] == args@[i as int]@);
        if same_text(a, "--listen") {
            if !has_value {
                return Err(missing("--listen requires an address"));
            }
            assert(all[i + 1] == args@[i + 1]@);
            if !address_ok[i + 1] {
                return Err(DevServerArgError::InvalidAddress(args[i + 1].clone()));
            }
            acc.listen = args[i + 1].clone();
            i = i + 2;
        } else if same_text(a, "--cert") {
            if !has_value {
                return Err(missing("--cert requires a path"));
            }
            assert(all[i + 1] == args@[i + 1]@);
            acc.cert = Some(args[i + 1].clone());
            i = i + 2;
        } else if same_text(a, "--key") {
            if !has_value {
                return Err(missing("--key requires a path"));
            }
            assert(all[i + 1] == args@[i + 1]@);
            acc.key = Some(args[i + 1].clone());
            i = i + 2;
        } else if same_text(a, "--reject") {
            acc.reject = true;
            i = i + 1;
        } else if same_text(a, "--accept-delay-ms") {
            if !has_value {
                return Err(missing("--accept-delay-ms requires a value"));
            }
            assert(all[i + 1] == args@[i + 1]@);
            match parse_u64(args[i + 1].as_str()) {
                None => {
                    return Err(DevServerArgError::InvalidDelay(args[i + 1].clone()));
                },
                Some(v) => {
                    acc.accept_delay_ms = v;
                },
            }
            i = i + 2;
        } else if same_text(a, "--san") {
            if !has_value {
                return Err(missing("--san requires a value"));
            }
            assert(all[i + 1] == args@[i + 1]@);
            let ghost before = acc@;
            acc.generated_sans.push(args[i + 1].clone());
            assert(texts(acc.generated_sans@) =~= before.generated_sans.push(all[i + 1]));
            i = i + 2;
        } else if same_text(a, "--expired") {
            acc.expired = true;
            i = i + 1;
        } else if same_text(a, "--write-generated-cert") {
            if !has_value {
                return Err(missing("--write-generated-cert requires a path"));
            }
            assert(all[i + 1] == args@[i + 1]@);
            acc.write_generated_cert = Some(args[i + 1].clone());
            i = i + 2;
        } else if same_text(a, "--help") || same_text(a, "-h") {
            return Ok(DevServerCommand::Help);
        } else {
            return Err(DevServerArgError::UnknownArgument(args[i].clone()));
        }
    }
    if acc.cert.is_some() != acc.key.is_some() {
        return Err(DevServerArgError::CertKeyMismatch);
    }
    if acc.cert.is_some() && (acc.expired || acc.generated_sans.len() > 0) {
        return Err(DevServerArgError::GeneratedOnlyOptions);
    }
    Ok(DevServerCommand::Run(acc))
}

/// The validity period of a generated certificate, in whole days relative
/// to the moment it is generated.
#[derive(Clone, Copy, Debug, PartialEq, Eq, Structural)]
pub enum CertificateValidity {
    /// Valid from `starts_days_ago` days before now until `ends_days_ago`
    /// days before now, so already expired.
    Expired { starts_days_ago: u32, ends_days_ago: u32 },
    /// Valid from now for `days` days.
    FromNow { days: u32 },
}

/// The validity period of the generated certificate: one that ended a day
/// ago (it started two days ago) where an expired certificate is asked for,
/// and otherwise thirteen days from now, below the fourteen days that
/// browsers accept for a certificate pinned by its hash, with room for the
/// rounding of timestamps.
pub fn certificate_validity(args: &DevServerArgs) -> (v: CertificateValidity)
    ensures
        v == generated_validity(args@),
        args.expired ==> v == (CertificateValidity::Expired { starts_days_ago: 2, ends_days_ago: 1 }),
        !args.expired ==> v == (CertificateValidity::FromNow { days: 13 }),
{
    if args.expired {
        CertificateValidity::Expired { starts_days_ago: 2, ends_days_ago: 1 }
    } else {
        CertificateValidity::FromNow { days: 13 }
    }
}

#[verifier::external_type_specification]
#[verifier::external_body]
pub struct ExIdentity(wtransport::Identity);

#[verifier::external_type_specification]
#[verifier::external_body]
pub struct ExInvalidSan(wtransport::tls::error::InvalidSan);

/// A generated identity together with what it was generated for: the
/// names handed to the certificate builder and the validity period, in
/// days relative to the moment it was built.
pub struct GeneratedIdentity {
    pub identity: Identity,
    pub names: Ghost<Seq<Seq<char>>>,
    pub validity: Ghost<CertificateValidity>,
}

/// `Identity::self_signed_builder().subject_alt_names(sans)
/// .validity_period(now - starts, now - ends).build()`, with `now` the
/// current UTC time: a self-signed identity for `sans` whose validity
/// started `starts_days_ago` days ago and ended `ends_days_ago` days ago,
/// recorded beside it; or the refusal of a name that is not a valid
/// certificate string. The key is random and the dates rest on the clock,
/// so the identity itself is not described further. The bound on the days
/// keeps the dates inside the range that the date type holds, beyond which
/// the subtraction panics.
#[verifier::external_body]
fn expired_identity(sans: Vec<String>, starts_days_ago: u32, ends_days_ago: u32) -> (r: Result<
    GeneratedIdentity,
    InvalidSan,
>)
    requires
        ends_days_ago <= starts_days_ago <= 36500,
    ensures
        r matches Ok(g) ==> g.names@ == texts(sans@) && g.validity@ == (CertificateValidity::Expired {
            starts_days_ago,
            ends_days_ago,
        }),
{
    let names = Ghost(texts(sans@));
    let now = wtransport::tls::self_signed::time::OffsetDateTime::now_utc();
    let identity = Identity::self_signed_builder()
        .subject_alt_names(sans)
        .validity_period(
            now - wtransport::tls::self_signed::time::Duration::days(starts_days_ago as i64),
            now - wtransport::tls::self_signed::time::Duration::days(ends_days_ago as i64),
        )
        .build()?;
    Ok(GeneratedIdentity {
        identity,
        names,
        validity: Ghost(CertificateValidity::Expired { starts_days_ago, ends_days_ago }),
    })
}

/// `Identity::self_signed_builder().subject_alt_names(sans).from_now_utc()
/// .validity_days(days).build()`: a self-signed identity for `sans` valid
/// from now for `days` days, recorded beside it; or the refusal of a name
/// that is not a valid certificate string. The key is random and the dates
/// rest on the clock, so the identity itself is not described further. The
/// bound on the days keeps the end date inside the range that the date
/// type holds.
#[verifier::external_body]
fn identity_from_now(sans: Vec<String>, days: u32) -> (r: Result<GeneratedIdentity, InvalidSan>)
    requires
        days <= 36500,
    ensures
        r matches Ok(g) ==> g.names@ == texts(sans@) && g.validity@ == (CertificateValidity::FromNow {
            days,
        }),
{
    let names = Ghost(texts(sans@));
    let identity = Identity::self_signed_builder()
        .subject_alt_names(sans)
        .from_now_utc()
        .validity_days(days)
        .build()?;
    Ok(GeneratedIdentity { identity, names, validity: Ghost(CertificateValidity::FromNow { days }) })
}

/// The names that a generated certificate is for: the ones given, or
/// `localhost`, `127.0.0.1` and `::1` where none is.
pub open spec fn generated_names(a: ServerArgsModel) -> Seq<Seq<char>> {
    if a.generated_sans.len() == 0 {
        seq!["localhost"@, "127.0.0.1"@, "::1"@]
    } else {
        a.generated_sans
    }
}

/// The validity period of a generated certificate.
pub open spec fn generated_validity(a: ServerArgsModel) -> CertificateValidity {
    if a.expired {
        CertificateValidity::Expired { starts_days_ago: 2, ends_days_ago: 1 }
    } else {
        CertificateValidity::FromNow { days: 13 }
    }
}

/// The development server's generated identity: a self-signed
/// certificate with a fresh key, made for the names of `certificate_sans`
/// and valid over the period of `certificate_validity`, or the refusal of
/// one of those names.
pub fn generated_identity(args: &DevServerArgs) -> (r: Result<GeneratedIdentity, InvalidSan>)
    ensures
        r matches Ok(g) ==> g.names@ == generated_names(args@) && g.validity@ == generated_validity(
            args@,
        ),
{
    let sans = certificate_sans(args);
    match certificate_validity(args) {
        CertificateValidity::Expired { starts_days_ago, ends_days_ago } => expired_identity(
            sans,
            starts_days_ago,
            ends_days_ago,
        ),
        CertificateValidity::FromNow { days } => identity_from_now(sans, days),
    }
}

/// The subject alternative names for a generated certificate: the ones
/// given, or `localhost`, `127.0.0.1` and `::1` where none is.
pub fn certificate_sans(args: &DevServerArgs) -> (sans: Vec<String>)
    ensures
        args@.generated_sans.len() == 0 ==> texts(sans@) == seq![
            "localhost"@,
            "127.0.0.1"@,
            "::1"@,
        ],
        args@.generated_sans.len() > 0 ==> texts(sans@) == args@.generated_sans,
        texts(sans@) == generated_names(args@),
{
    if args.generated_sans.len() == 0 {
        let mut v: Vec<String> = Vec::new();
        v.push(String::from_str("localhost"));
        v.push(String::from_str("127.0.0.1"));
        v.push(String::from_str("::1"));
        assert(texts(v@) =~= seq!["localhost"@, "127.0.0.1"@, "::1"@]);
        v
    } else {
        let mut v: Vec<String> = Vec::new();
        let mut i: usize = 0;
        while i < args.generated_sans.len()
            invariant
                i <= args.generated_sans@.len(),
                texts(v@) == texts(args.generated_sans@).take(i as int),
            decreases args.generated_sans@.len() - i,
        {
            let ghost before = v@;
            let item = args.generated_sans[i].clone();
            assert(item@ == args.generated_sans@[i as int]@);
            v.push(item);
            assert(v@ =~= before.push(item));
            assert(texts(v@) =~= texts(before).push(item@));
            i = i + 1;
            assert(texts(v@) =~= texts(args.generated_sans@).take(i as int));
        }
        assert(texts(args.generated_sans@).take(i as int) =~= texts(args.generated_sans@));
        v
    }
}

} // verus!
