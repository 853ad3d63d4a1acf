//! From a profile to the settings of the assume-role chain: the identity
//! that assumes, the role it assumes, and the region to ask in.

use crate::config::Config;
use crate::error::ChainError;
use crate::location::{default_profile_name, profile_name_for};
use crate::parser::{parse_config_file, profiles_in, ConfigFile};
use crate::provider::{action_after, slot_after, Action, Event};
use rusoto_core::Region;
use std::str::FromStr;
use vstd::prelude::*;

verus! {

/// The key whose value names the profile with the source credentials.
pub const SOURCE_PROFILE: &'static str = "source_profile";

/// The key whose value is the role to assume.
pub const ROLE_ARN: &'static str = "role_arn";

/// `rusoto_core::Region`, which the library hands on without looking into
/// it.
#[verifier::external_type_specification]
#[verifier::external_body]
pub struct ExRegion(rusoto_core::Region);

/// The region that `Region::from_str` of `rusoto_core` reads from `name`,
/// where it reads one.
pub uninterp spec fn region_named(name: Seq<char>) -> Option<Region>;

/// What a profile says of the role to assume and of who assumes it.
#[derive(Debug, PartialEq, Eq)]
pub struct ResolvedIdentity {
    pub source_profile: String,
    pub role_arn: String,
}

/// A [`ResolvedIdentity`] over sequences of characters.
pub struct IdentityView {
    pub source_profile: Seq<char>,
    pub role_arn: Seq<char>,
}

impl View for ResolvedIdentity {
    type V = IdentityView;

    open spec fn view(&self) -> IdentityView {
        IdentityView { source_profile: self.source_profile@, role_arn: self.role_arn@ }
    }
}

/// What the provider of assumed-role credentials is made with. The four
/// optional settings are never given, so each takes its default. `D` is
/// the type in which the token service takes a session's duration.
#[derive(Debug, PartialEq, Eq)]
pub struct AssumeRolePlan<D> {
    pub source_profile: String,
    pub role_arn: String,
    pub session_name: String,
    pub external_id: Option<String>,
    pub session_duration: Option<D>,
    pub scope_down_policy: Option<String>,
    pub mfa_serial: Option<String>,
}

/// The identity that the profile `profile` of `config` gives. Each thing
/// that is missing is a failure of its own, and the first one missing
/// decides: the configuration, the profile, its `source_profile`, its
/// `role_arn`.
pub open spec fn identity_in(
    config: Option<Map<Seq<char>, Map<Seq<char>, Seq<char>>>>,
    profile: Seq<char>,
) -> Result<IdentityView, ChainError> {
    match config {
        None => Err(ChainError::ConfigNotParsable),
        Some(profiles) => if !profiles.contains_key(profile) {
            Err(ChainError::ProfileNotFound)
        } else if !profiles[profile].contains_key("source_profile"@) {
            Err(ChainError::SourceProfileMissing)
        } else if !profiles[profile].contains_key("role_arn"@) {
            Err(ChainError::RoleArnMissing)
        } else {
            Ok(
                IdentityView {
                    source_profile: profiles[profile]["source_profile"@],
                    role_arn: profiles[profile]["role_arn"@],
                },
            )
        },
    }
}

/// The profiles of a configuration that may not be there.
pub open spec fn profiles_of(config: Option<&Config>) -> Option<
    Map<Seq<char>, Map<Seq<char>, Seq<char>>>,
> {
    match config {
        Some(config) => Some(config@),
        None => None,
    }
}

/// Whether `result` is what `expected` says: the same identity, or the same
/// failure.
pub open spec fn identity_is(
    result: Result<ResolvedIdentity, ChainError>,
    expected: Result<IdentityView, ChainError>,
) -> bool {
    match expected {
        Ok(view) => result matches Ok(identity) && identity@ == view,
        Err(error) => result matches Err(e) && e == error,
    }
}

/// The identity that the file `file` gives for the profile that the
/// override `profile_override` selects. A file that cannot be read fails
/// before anything is looked up in it.
pub open spec fn identity_from(file: ConfigFile, profile_override: Option<String>) -> Result<
    IdentityView,
    ChainError,
> {
    match profiles_in(file) {
        Ok(profiles) => identity_in(profiles, profile_name_for(profile_override)),
        Err(error) => Err(error),
    }
}

/// Whether `result` is what `expected` says: the plan for that identity in
/// a session called `session_name`, with no optional setting given, or the
/// same failure.
pub open spec fn plan_is<D>(
    result: Result<AssumeRolePlan<D>, ChainError>,
    expected: Result<IdentityView, ChainError>,
    session_name: String,
) -> bool {
    match expected {
        Ok(identity) => {
            &&& result matches Ok(plan)
            &&& plan.source_profile@ == identity.source_profile
            &&& plan.role_arn@ == identity.role_arn
            &&& plan.session_name == session_name
            &&& plan.external_id is None
            &&& plan.session_duration is None
            &&& plan.scope_down_policy is None
            &&& plan.mfa_serial is None
        },
        Err(error) => result matches Err(e) && e == error,
    }
}

/// The region to ask in: the one read from the source profile, where one
/// was read, else the default.
pub open spec fn region_or_default(read: Option<Region>, default_region: Region) -> Region {
    match read {
        Some(region) => region,
        None => default_region,
    }
}

/// The region that the source profile names, if the lookup found a name and
/// the name is one of a region.
pub open spec fn region_in<E>(lookup: Result<Option<String>, E>) -> Option<Region> {
    match lookup {
        Ok(Some(name)) => region_named(name@),
        _ => None,
    }
}

/// Where there is no file, or no regular one, there is no configuration,
/// and asking it for an identity fails for want of one, whichever profile
/// is asked for.
pub proof fn lemma_no_file_is_not_parsable(profile_override: Option<String>)
    ensures
        profiles_in(ConfigFile::Missing) == Ok::<
            Option<Map<Seq<char>, Map<Seq<char>, Seq<char>>>>,
            ChainError,
        >(None),
        profiles_in(ConfigFile::NotAFile) == profiles_in(ConfigFile::Missing),
        identity_from(ConfigFile::Missing, profile_override) == Err::<IdentityView, ChainError>(
            ChainError::ConfigNotParsable,
        ),
        identity_from(ConfigFile::NotAFile, profile_override) == Err::<IdentityView, ChainError>(
            ChainError::ConfigNotParsable,
        ),
{
}

/// A profile that names its source profile but no role fails for want of
/// the role, and the failure leaves the provider's slot as it was.
pub proof fn lemma_missing_role_arn<C>(
    profiles: Map<Seq<char>, Map<Seq<char>, Seq<char>>>,
    profile: Seq<char>,
    slot: Option<C>,
)
    requires
        profiles.contains_key(profile),
        profiles[profile].contains_key("source_profile"@),
        !profiles[profile].contains_key("role_arn"@),
    ensures
        identity_in(Some(profiles), profile) == Err::<IdentityView, ChainError>(
            ChainError::RoleArnMissing,
        ),
        slot_after(slot, Event::<C, ChainError>::BuildFailed(ChainError::RoleArnMissing)) == slot,
        action_after(slot, Event::<C, ChainError>::BuildFailed(ChainError::RoleArnMissing))
            == Action::Fail(ChainError::RoleArnMissing),
{
}

/// Reads a region from its name with `Region::from_str` of `rusoto_core`,
/// which compares the name, in lower case, with the names it knows. The
/// result is a function of the name alone.
#[verifier::external_body]
fn parse_region(name: &str) -> (region: Option<Region>)
    ensures
        region == region_named(name@),
{
    Region::from_str(name).ok()
}

/// Reads from `config` who assumes which role under the profile
/// `profile_name`.
pub fn resolve_identity(config: Option<&Config>, profile_name: &str) -> (result: Result<
    ResolvedIdentity,
    ChainError,
>)
    ensures
        identity_is(result, identity_in(profiles_of(config), profile_name@)),
{
    let config = match config {
        Some(config) => config,
        None => {
            return Err(ChainError::ConfigNotParsable);
        },
    };
    let profile = match config.get(profile_name) {
        Some(profile) => profile,
        None => {
            return Err(ChainError::ProfileNotFound);
        },
    };
    let source_profile = match profile.get(SOURCE_PROFILE) {
        Some(value) => value.clone(),
        None => {
            return Err(ChainError::SourceProfileMissing);
        },
    };
    let role_arn = match profile.get(ROLE_ARN) {
        Some(value) => value.clone(),
        None => {
            return Err(ChainError::RoleArnMissing);
        },
    };
    Ok(ResolvedIdentity { source_profile, role_arn })
}

/// The settings for assuming the role of `identity` in a session called
/// `session_name`.
pub fn assume_role_plan<D>(identity: ResolvedIdentity, session_name: String) -> (plan:
    AssumeRolePlan<D>)
    ensures
        plan.source_profile == identity.source_profile,
        plan.role_arn == identity.role_arn,
        plan.session_name == session_name,
        plan.external_id is None,
        plan.session_duration is None,
        plan.scope_down_policy is None,
        plan.mfa_serial is None,
{
    AssumeRolePlan {
        source_profile: identity.source_profile,
        role_arn: identity.role_arn,
        session_name,
        external_id: None,
        session_duration: None,
        scope_down_policy: None,
        mfa_serial: None,
    }
}

/// The settings of the assume-role chain, from what was found in the
/// place of the configuration file, the value of the variable that
/// overrides the profile's name, and the name for the session.
pub fn create_assume_role_profile<D>(
    file: &ConfigFile,
    profile_override: Option<String>,
    session_name: String,
) -> (result: Result<AssumeRolePlan<D>, ChainError>)
    ensures
        plan_is(result, identity_from(*file, profile_override), session_name),
{
    let config = match parse_config_file(file) {
        Ok(config) => config,
        Err(error) => {
            return Err(error);
        },
    };
    let profile_name = default_profile_name(profile_override);
    match resolve_identity(config.as_ref(), profile_name.as_str()) {
        Ok(identity) => Ok(assume_role_plan(identity, session_name)),
        Err(error) => Err(error),
    }
}

/// The region read from the source profile, or the default where none was
/// read.
pub fn region_or(read: Option<Region>, default_region: Region) -> (region: Region)
    ensures
        region == region_or_default(read, default_region),
{
    match read {
        Some(region) => region,
        None => default_region,
    }
}

/// The region to ask in, given what looking up the source profile's region
/// gave. A lookup that failed, a profile without a region and a name that
/// is not one of a region all leave the default.
pub fn select_region<E>(lookup: Result<Option<String>, E>, default_region: Region) -> (region:
    Region)
    ensures
        region == region_or_default(region_in(lookup), default_region),
{
    match lookup {
        Ok(Some(name)) => region_or(parse_region(name.as_str()), default_region),
        _ => default_region,
    }
}

} // verus!
