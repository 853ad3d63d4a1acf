use assume_role_profile::error::ChainError;
use assume_role_profile::location::{
    default_profile_location, default_profile_name, hardcoded_location_under,
    hardcoded_profile_location, non_empty, ProfileLocation, AWS_PROFILE,
    AWS_SHARED_CREDENTIALS_FILE, DEFAULT,
};
use std::path::PathBuf;

fn text(value: &str) -> Option<String> {
    Some(value.to_string())
}

fn under(home: PathBuf) -> ProfileLocation {
    ProfileLocation::UnderHome {
        home,
        directory: ".aws".to_string(),
        file: "config".to_string(),
    }
}

fn to_path(location: ProfileLocation) -> PathBuf {
    match location {
        ProfileLocation::Explicit(path) => PathBuf::from(path),
        ProfileLocation::UnderHome { mut home, directory, file } => {
            home.push(directory);
            home.push(file);
            home
        }
    }
}

#[test]
fn names_of_the_variables() {
    assert_eq!(AWS_PROFILE, "AWS_PROFILE");
    assert_eq!(AWS_SHARED_CREDENTIALS_FILE, "AWS_SHARED_CREDENTIALS_FILE");
    assert_eq!(DEFAULT, "default");
}

#[test]
fn an_unset_value_does_not_count() {
    assert_eq!(non_empty(None), None);
}

#[test]
fn an_empty_value_does_not_count() {
    assert_eq!(non_empty(text("")), None);
}

#[test]
fn any_other_value_counts() {
    assert_eq!(non_empty(text("work")), text("work"));
    assert_eq!(non_empty(text(" ")), text(" "));
    assert_eq!(non_empty(text("0")), text("0"));
}

#[test]
fn profile_name_without_override() {
    assert_eq!(default_profile_name(None), "default");
}

#[test]
fn profile_name_with_empty_override() {
    assert_eq!(default_profile_name(text("")), "default");
}

#[test]
fn profile_name_with_override() {
    assert_eq!(default_profile_name(text("work")), "work");
    assert_eq!(default_profile_name(text(" work ")), " work ");
    assert_eq!(default_profile_name(text("default")), "default");
}

#[test]
fn location_under_a_home_directory() {
    let home = PathBuf::from("/home/someone");
    let location = hardcoded_location_under(Some(home.clone())).unwrap();
    assert_eq!(location, under(home));
    let path = to_path(location);
    assert_eq!(path, PathBuf::from("/home/someone/.aws/config"));
    assert!(path.ends_with(".aws/config"));
    assert!(!path.ends_with(".aws/credentials"));
    assert!(path.starts_with("/home/someone"));
}

#[test]
fn location_without_a_home_directory() {
    assert_eq!(hardcoded_location_under(None), Err(ChainError::HomeDirectoryUnknown));
}

#[test]
fn location_with_override() {
    assert_eq!(
        default_profile_location(text("/somewhere/else")),
        Ok(ProfileLocation::Explicit("/somewhere/else".to_string()))
    );
    assert_eq!(
        default_profile_location(text("relative file")),
        Ok(ProfileLocation::Explicit("relative file".to_string()))
    );
    assert_eq!(
        to_path(default_profile_location(text("/somewhere/else")).unwrap()),
        PathBuf::from("/somewhere/else")
    );
}

#[test]
fn location_falls_back_to_the_home_directory() {
    let expected = match dirs::home_dir() {
        Some(home) => Ok(under(home)),
        None => Err(ChainError::HomeDirectoryUnknown),
    };
    assert_eq!(hardcoded_profile_location(), expected);
    assert_eq!(default_profile_location(None), expected);
    assert_eq!(default_profile_location(text("")), expected);
}

#[test]
fn the_default_path_ends_in_the_settings_file() {
    if let Ok(location) = default_profile_location(None) {
        let path = to_path(location);
        assert!(path.ends_with(".aws/config"));
        assert!(!path.ends_with(".aws/credentials"));
        assert!(path.starts_with(dirs::home_dir().unwrap()));
    }
}
