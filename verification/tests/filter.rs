use run_parts::filter::filter_filename;
use run_parts::Opt;

fn plain_opt() -> Opt {
    Opt {
        test: false,
        list: false,
        verbose: false,
        report: false,
        reverse: false,
        exit_on_error: false,
        umask: String::from("022"),
        lsbsysinit: false,
        regex: None,
        arg: Vec::new(),
        dir: String::from("."),
    }
}

fn lsb_opt() -> Opt {
    let mut opt = plain_opt();
    opt.lsbsysinit = true;
    opt
}

#[test]
fn plain_names_pass_without_options() {
    let opt = plain_opt();
    assert!(filter_filename(&opt, "10foo"));
    assert!(filter_filename(&opt, "foo.bar"));
    assert!(filter_filename(&opt, "Weird Name!"));
}

#[test]
fn backup_suffixes_are_dropped() {
    let opt = plain_opt();
    assert!(!filter_filename(&opt, "foo~"));
    assert!(!filter_filename(&opt, "foo,"));
    assert!(!filter_filename(&opt, "foo.disabled"));
    assert!(!filter_filename(&opt, "foo.cfsaved"));
    assert!(!filter_filename(&opt, "foo.rpmsave"));
    assert!(!filter_filename(&opt, "foo.rpmorig"));
    assert!(!filter_filename(&opt, "foo.rpmnew"));
    assert!(!filter_filename(&opt, "foo.swp"));
    assert!(!filter_filename(&opt, "foo,v"));
}

#[test]
fn package_state_suffixes_are_dropped_under_lsbsysinit() {
    let lsb = lsb_opt();
    assert!(!filter_filename(&lsb, "foo.dpkg-old"));
    assert!(!filter_filename(&lsb, "foo.dpkg-dist"));
    assert!(!filter_filename(&lsb, "foo.dpkg-new"));
    assert!(!filter_filename(&lsb, "foo.dpkg-tmp"));
    // without the option, only the regular suffix list applies
    let plain = plain_opt();
    assert!(filter_filename(&plain, "foo.dpkg-old"));
}

#[test]
fn lanana_names_are_accepted() {
    let lsb = lsb_opt();
    assert!(filter_filename(&lsb, "10foo"));
    assert!(filter_filename(&lsb, "cron"));
    assert!(!filter_filename(&lsb, ""));
}

#[test]
fn reserved_names_are_accepted() {
    let lsb = lsb_opt();
    assert!(filter_filename(&lsb, "_sysconfig-network"));
    assert!(filter_filename(&lsb, "org.example-daemon"));
    assert!(filter_filename(&lsb, "a.b-c-d9"));
    // a dot may not appear after the last hyphen
    assert!(!filter_filename(&lsb, "foo-bar.baz"));
    // a dotted name may not start with a hyphen, nor double one
    assert!(!filter_filename(&lsb, "-foo.bar"));
    assert!(!filter_filename(&lsb, "a.--b"));
}

#[test]
fn cron_names_are_accepted() {
    let lsb = lsb_opt();
    assert!(filter_filename(&lsb, "Foo_bar-2"));
    assert!(filter_filename(&lsb, "anacron"));
    // hyphens may stand anywhere in this namespace
    assert!(filter_filename(&lsb, "-foo"));
    assert!(filter_filename(&lsb, "foo-"));
    assert!(filter_filename(&lsb, "a--b"));
    // a dot puts a name outside the cron namespace
    assert!(!filter_filename(&lsb, "foo.bar"));
    assert!(!filter_filename(&lsb, "foo bar"));
}

#[test]
fn custom_regex_decides_the_rest() {
    let mut opt = plain_opt();
    opt.regex = Some(String::from("^a"));
    assert!(filter_filename(&opt, "apple"));
    assert!(!filter_filename(&opt, "banana"));
    opt.regex = Some(String::from("ap{2}le"));
    assert!(filter_filename(&opt, "apple"));
    assert!(!filter_filename(&opt, "aple"));
}

#[test]
fn custom_regex_applies_after_the_suffix_rules() {
    let mut opt = plain_opt();
    opt.regex = Some(String::from("^foo"));
    assert!(!filter_filename(&opt, "foo~"));
    assert!(filter_filename(&opt, "foo"));
}

#[test]
fn invalid_regex_accepts_nothing() {
    let mut opt = plain_opt();
    opt.regex = Some(String::from("("));
    assert!(!filter_filename(&opt, "anything"));
}
