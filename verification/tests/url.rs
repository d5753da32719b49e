use pyscan::pep_508::url::parse;
use pyscan::pep_508::{Expected, ParseError};

fn check(urls: &[&str]) {
    for url in urls {
        assert_eq!(*url, parse(url).expect(url));
    }
}

fn rejected(url: &str, position: usize, expected: Expected) {
    assert_eq!(parse(url), Err(vec![ParseError { position, expected }]), "{}", url);
}

#[test]
fn basic() {
    check(&[
        "https://github.com/figsoda/pep-508",
        "https://crates.io/search?q=pep-508&sort=recent-downloads",
        "http://127.0.0.1:8000?some=query#anchor",
        "/relative/url?query=good",
        "another/relative/url#this",
    ]);

    assert!(parse("").is_err());
    assert!(parse("https://example.com ").is_err());
}

#[test]
fn examples() {
    check(&[
        "ftp://ftp.is.co.za/rfc/rfc1808.txt",
        "http://www.ietf.org/rfc/rfc2396.txt",
        "ldap://[2001:db8::7]/c=GB?objectClass?one",
        "mailto:John.Doe@example.com",
        "news:comp.infosystems.www.servers.unix",
        "tel:+1-816-555-1212",
        "telnet://192.0.2.16:80/",
        "urn:oasis:names:specification:docbook:dtd:xml:4.1.2",
    ]);
}

#[test]
fn ipv6() {
    check(&[
        "https://[::]",
        "https://[::1]",
        "https://[0:0:0:0:0:0:0:0]",
        "https://[ffff:ffff:ffff:ffff:ffff:ffff:ffff:ffff]",
    ]);

    assert!(parse("[::]").is_err());
    assert!(parse("https://[:::1]").is_err());
    assert!(parse("https://[ffff:ffff:ffff:ffff:ffff:ffff:ffff]").is_err());
    assert!(parse("https://[0:0:0:0:0:0:0:0:0]").is_err());
}

#[test]
fn url_errors_say_where() {
    rejected("", 0, Expected::Url);
    rejected(" https://example.com", 0, Expected::Url);
    rejected("https://example.com ", 19, Expected::EndOfInput);
    rejected("[::]", 0, Expected::Url);
    // a host in brackets that is no address leaves the brackets unread
    rejected("https://[:::1]", 8, Expected::EndOfInput);
    rejected("https://[ffff:ffff:ffff:ffff:ffff:ffff:ffff]", 8, Expected::EndOfInput);
    rejected("https://[0:0:0:0:0:0:0:0:0]", 8, Expected::EndOfInput);
    rejected("https://example.com/\u{e9}", 20, Expected::EndOfInput);
    rejected("http:", 4, Expected::EndOfInput);
}

#[test]
fn ipv6_compressed_forms() {
    check(&[
        // one form for each number of groups behind "::"
        "http://[::1:2:3:4:5:6:7]",
        "http://[::2:3:4:5:6:7]",
        "http://[1::3:4:5:6:7]",
        "http://[1:2::4:5:6:7]",
        "http://[1:2:3::5:6:7]",
        "http://[1:2:3:4::6:7]",
        "http://[1:2:3:4:5::7]",
        "http://[1:2:3:4:5:6::7]",
        "http://[1:2:3:4:5:6:7::]",
        "http://[1::]",
        "http://[a::1:2:3:4:5]",
        // an IPv4 address stands for the last two groups
        "http://[::ffff:192.0.2.1]",
        "http://[1:2:3:4:5:6:192.0.2.1]",
        "http://[64:ff9b::192.0.2.33]",
    ]);

    // eight groups leave no room for "::"
    assert!(parse("http://[1:2:3:4:5:6:7:8::]").is_err());
    assert!(parse("http://[::1:2:3:4:5:6:7:8]").is_err());
    assert!(parse("http://[1:2:3:4::5:6:7:8]").is_err());
    // "::" stands once
    assert!(parse("http://[1::2::3]").is_err());
    // three colons are no compression
    assert!(parse("http://[:::1:2:3:4:55556:7]").is_err());
    assert!(parse("http://[1:::2]").is_err());
    // a group has at most four digits
    assert!(parse("http://[12345::]").is_err());
    // an IPv4 address is not followed by a group
    assert!(parse("http://[::192.0.2.1:1]").is_err());
    assert!(parse("http://[::1").is_err());
}

#[test]
fn ipv4_octets() {
    check(&["http://0.0.0.0", "http://255.255.255.255", "http://[::249.199.99.9]"]);
    assert!(parse("http://[::256.0.0.1]").is_err());
    assert!(parse("http://[::01.0.0.1]").is_err());
    assert!(parse("http://[::1.2.3]").is_err());
}

#[test]
fn host_alternatives_are_ordered() {
    // an IPv4 address at the start of a host is taken as the host
    rejected("http://1.2.3.4.5", 14, Expected::EndOfInput);
    rejected("http://1.2.3.4a", 14, Expected::EndOfInput);
    check(&["http://1.2.3.com", "http://1.2.3.4:80/x", "http://256.1.1.1"]);
}

#[test]
fn ip_future() {
    check(&["http://[v1.a]", "http://[vFe.x:y]"]);
    assert!(parse("http://[v.a]").is_err());
    assert!(parse("http://[v1.]").is_err());
    assert!(parse("http://[v1a]").is_err());
}

#[test]
fn percent_encoding() {
    check(&["http://example.com/a%20b", "http://ex%41mple.com/?q=%ff#%00", "%41bc/def"]);
    rejected("http://example.com/a%2", 20, Expected::EndOfInput);
    rejected("http://example.com/a%zz", 20, Expected::EndOfInput);
    rejected("http://example.com/%", 19, Expected::EndOfInput);
}

#[test]
fn authority_parts() {
    check(&[
        "http://user:pw@example.com:8080/path",
        "http://@example.com",
        "http://example.com:",
        "http://",
        "//example.com/path",
        "//[::1]/path",
        "/",
        "file:///etc/hosts",
    ]);
    // a colon in the first segment of a relative path is a scheme's
    rejected("1a:b", 2, Expected::EndOfInput);
    rejected("http://example.com:80a", 21, Expected::EndOfInput);
    rejected("http://a@b@c", 10, Expected::EndOfInput);
}
