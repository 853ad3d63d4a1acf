use assume_role_profile::error::ChainError;
use assume_role_profile::provider::{default_session_name, Action, ConfigAssumeRoleProvider, Event};
use rusoto_core::Region;

fn fresh() -> ConfigAssumeRoleProvider<u32> {
    ConfigAssumeRoleProvider::new(Region::EuCentral1, "session".to_string())
}

#[test]
fn a_new_provider_has_no_chain() {
    let provider = fresh();
    assert_eq!(provider.chain(), None);
    assert_eq!(provider.default_region(), &Region::EuCentral1);
    assert_eq!(provider.session_name(), "session");
}

#[test]
fn a_request_to_an_empty_slot_builds() {
    let mut provider = fresh();
    assert_eq!(provider.step::<ChainError>(Event::Requested), Action::Build);
    assert_eq!(provider.chain(), None);
}

#[test]
fn a_built_chain_is_kept_and_served_from() {
    let mut provider = fresh();
    assert_eq!(provider.step::<ChainError>(Event::Built(7)), Action::Delegate);
    assert_eq!(provider.chain(), Some(&7));
    assert_eq!(provider.step::<ChainError>(Event::Requested), Action::Delegate);
    assert_eq!(provider.chain(), Some(&7));
    assert_eq!(provider.default_region(), &Region::EuCentral1);
    assert_eq!(provider.session_name(), "session");
}

#[test]
fn a_failed_build_is_reported_and_not_kept() {
    let mut provider = fresh();
    assert_eq!(provider.step(Event::Requested), Action::<ChainError>::Build);
    assert_eq!(
        provider.step(Event::BuildFailed(ChainError::RoleArnMissing)),
        Action::Fail(ChainError::RoleArnMissing)
    );
    assert_eq!(provider.chain(), None);
    assert_eq!(provider.step(Event::Requested), Action::<ChainError>::Build);
}

#[test]
fn a_failed_build_leaves_a_chain_in_place() {
    let mut provider = fresh();
    provider.step::<ChainError>(Event::Built(1));
    assert_eq!(
        provider.step(Event::BuildFailed(ChainError::ConfigNotParsable)),
        Action::Fail(ChainError::ConfigNotParsable)
    );
    assert_eq!(provider.chain(), Some(&1));
}

#[test]
fn two_first_requests_and_a_third() {
    let mut provider = fresh();
    let mut builds: u32 = 0;
    let mut serve = |provider: &mut ConfigAssumeRoleProvider<u32>, chain: u32| -> Option<u32> {
        match provider.step::<ChainError>(Event::Requested) {
            Action::Build => {
                builds += 1;
                assert_eq!(provider.step::<ChainError>(Event::Built(chain)), Action::Delegate);
            }
            Action::Delegate => {}
            Action::Fail(_) => return None,
        }
        provider.chain().copied()
    };
    assert_eq!(serve(&mut provider, 1), Some(1));
    assert_eq!(serve(&mut provider, 2), Some(1));
    assert_eq!(builds, 1);

    let mut provider = fresh();
    assert_eq!(provider.step::<ChainError>(Event::Requested), Action::Build);
    assert_eq!(provider.step::<ChainError>(Event::Requested), Action::Build);
    assert_eq!(provider.step::<ChainError>(Event::Built(1)), Action::Delegate);
    assert_eq!(provider.chain(), Some(&1));
    assert_eq!(provider.step::<ChainError>(Event::Built(2)), Action::Delegate);
    assert_eq!(provider.chain(), Some(&2));
    assert_eq!(provider.step::<ChainError>(Event::Requested), Action::Delegate);
    assert_eq!(provider.chain(), Some(&2));
}

#[test]
fn session_name_of_a_package() {
    assert_eq!(default_session_name("some-package", "1.2.3"), "some-package-1.2.3");
    assert_eq!(default_session_name("", ""), "-");
    assert_eq!(default_session_name("a", ""), "a-");
}
