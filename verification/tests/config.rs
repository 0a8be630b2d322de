use icp_hackathon_backend::category::Category;
use icp_hackathon_backend::config::Config;
use icp_hackathon_backend::standards::{
    icrc10_supported_standards, icrc28_trusted_origins, SupportedStandard,
};
use icp_hackathon_backend::validation::{
    has_length_within, is_valid_email, is_valid_phone_number,
};

fn names(categories: &Option<Vec<Category>>) -> Vec<&str> {
    categories.as_ref().unwrap().iter().map(|c| c.name.as_str()).collect()
}

#[test]
fn category_new_keeps_its_arguments() {
    let leaf = Category::new("Other".to_string(), None);
    assert_eq!(leaf.name, "Other");
    assert!(leaf.lower_categories.is_none());
    let group = Category::new("Books".to_string(), Some(vec![leaf]));
    assert_eq!(group.name, "Books");
    assert_eq!(names(&group.lower_categories), ["Other"]);
    let copy = group.clone();
    assert_eq!(copy.name, "Books");
    assert_eq!(names(&copy.lower_categories), ["Other"]);
}

#[test]
fn config_new_has_the_starting_bounds() {
    let config = Config::new();
    assert_eq!(config.max_description_len, 2000);
    assert_eq!(config.max_title_len, 250);
    assert_eq!(config.min_description_len, 50);
    assert_eq!(config.min_title_len, 12);
    assert_eq!(config.min_user_name_len, 5);
    assert_eq!(config.max_user_name_len, 50);
    assert_eq!(config.min_company_name_len, 5);
    assert_eq!(config.max_company_name_len, 50);
}

#[test]
fn config_new_has_the_starting_categories() {
    let config = Config::new();
    let groups: Vec<&str> = config.categories.iter().map(|c| c.name.as_str()).collect();
    assert_eq!(
        groups,
        ["Electronics", "Home & Garden", "Fashion", "Vehicles", "Agriculture", "Handicraft", "Books"]
    );
    let lower: Vec<Vec<&str>> =
        config.categories.iter().map(|c| names(&c.lower_categories)).collect();
    assert_eq!(lower[0], ["Mobile Phones", "Laptops", "Televisions", "Cameras", "Other"]);
    assert_eq!(lower[1], ["Furniture", "Household Appliances", "Garden Tools", "Other"]);
    assert_eq!(lower[2], ["Clothing", "Footwear", "Accessories", "Other"]);
    assert_eq!(lower[3], ["Cars", "Motorcycles", "Bicycles", "Other"]);
    assert_eq!(lower[4], ["Crops", "Animal Husbandry", "Other"]);
    assert_eq!(lower[5], ["Jewelry", "Home Decorations", "Other"]);
    assert_eq!(lower[6], ["Fiction", "Non-fiction", "Comics", "Other"]);
    for group in &config.categories {
        for leaf in group.lower_categories.as_ref().unwrap() {
            assert!(leaf.lower_categories.is_none());
        }
    }
    let copy = config.clone();
    assert_eq!(copy.categories.len(), 7);
    assert_eq!(names(&copy.categories[6].lower_categories), lower[6]);
    assert_eq!(copy.max_title_len, 250);
}

#[test]
fn supported_standards_are_icrc_10_and_28() {
    assert_eq!(
        icrc10_supported_standards(),
        vec![
            SupportedStandard {
                url: "https://github.com/dfinity/ICRC/blob/main/ICRCs/ICRC-10/ICRC-10.md"
                    .to_string(),
                name: "ICRC-10".to_string(),
            },
            SupportedStandard {
                url: "https://github.com/dfinity/wg-identity-authentication/blob/main/topics/icrc_28_trusted_origins.md"
                    .to_string(),
                name: "ICRC-28".to_string(),
            },
        ]
    );
}

#[test]
fn trusted_origins_are_the_eight_front_ends() {
    let response = icrc28_trusted_origins();
    assert_eq!(
        response.trusted_origins,
        [
            "https://your-frontend-canister-id.icp0.io",
            "https://your-frontend-canister-id.raw.icp0.io",
            "https://your-frontend-canister-id.ic0.app",
            "https://your-frontend-canister-id.raw.ic0.app",
            "https://your-frontend-canister-id.icp0.icp-api.io",
            "https://your-frontend-canister-id.icp-api.io",
            "https://yourcustomdomain.com",
            "https://yourothercustomdomain.com",
        ]
    );
    assert_eq!(response.clone().trusted_origins.len(), 8);
}

#[test]
fn length_is_within_bounds_that_are_both_allowed() {
    assert!(has_length_within("abcde", 5, 5));
    assert!(has_length_within("abcde", 0, 5));
    assert!(has_length_within("abcde", 5, 9));
    assert!(!has_length_within("abcde", 6, 9));
    assert!(!has_length_within("abcde", 0, 4));
    assert!(!has_length_within("abcde", 6, 4));
    assert!(has_length_within("", 0, 0));
    assert!(has_length_within("żó", 4, 4));
}

#[test]
fn phone_number_is_nine_digits() {
    assert!(is_valid_phone_number("123456789"));
    assert!(is_valid_phone_number("000000000"));
    assert!(!is_valid_phone_number("12345678"));
    assert!(!is_valid_phone_number("1234567890"));
    assert!(!is_valid_phone_number("12345678a"));
    assert!(!is_valid_phone_number("+12345678"));
    assert!(!is_valid_phone_number("123 456 7"));
    assert!(!is_valid_phone_number(""));
    assert!(!is_valid_phone_number("１２３"));
    assert!(!is_valid_phone_number("1234567é"));
}

#[test]
fn email_has_a_name_a_domain_and_letters_at_the_end() {
    for good in [
        "alice@example.com",
        "a@b.io",
        "first.last+tag@sub.domain-name.org",
        "USER_1%x@EXAMPLE.COM",
        "a@1.2.cc",
        "a-b@c-d.ef",
        "x@.y.zz",
    ] {
        assert!(is_valid_email(good), "{good}");
    }
    for bad in [
        "",
        "alice",
        "alice@",
        "@example.com",
        "alice@example",
        "alice@example.c",
        "alice@example.c0m",
        "alice@.com",
        "alice@@example.com",
        "al ice@example.com",
        "alice@exa mple.com",
        "alice@example.com ",
        "alice@example.com.",
        "alice@example..",
        "żółw@example.com",
        "alice@exämple.com",
        "alice@example.cöm",
        "a!b@example.com",
        "alice@exam_ple.com",
    ] {
        assert!(!is_valid_email(bad), "{bad}");
    }
}
