//! What `cargo gangplank` decides and writes: the command line, the binary
//! to bundle, and the bundle's `Info.plist`. Building, signing and copying
//! files is the command's own business.

use crate::text::{char_vec, decimal, push_decimal, str_eq, string_push};
use std::path::PathBuf;
use vstd::prelude::*;

verus! {

/// `[package.metadata.gangplank]` from the app's Cargo.toml.
pub struct Config {
    pub name: Option<String>,
    pub identifier: Option<String>,
    pub icon: Option<PathBuf>,
    pub file_types: Vec<String>,
    pub url_schemes: Vec<String>,
    pub agent: bool,
    pub minimum_system_version: Option<String>,
    /// A Developer ID identity to sign with; ad hoc when absent.
    pub sign: Option<String>,
    /// The notarytool keychain profile a disk image is notarized with.
    pub notarize_profile: Option<String>,
}

/// What a character becomes in XML text.
pub open spec fn escape_char(c: char) -> Seq<char> {
    if c == '&' {
        "&amp;"@
    } else if c == '<' {
        "&lt;"@
    } else if c == '>' {
        "&gt;"@
    } else {
        seq![c]
    }
}

/// `s` with `&`, `<` and `>` escaped for XML.
pub open spec fn escape_text(s: Seq<char>) -> Seq<char>
    decreases s.len(),
{
    if s.len() == 0 {
        Seq::empty()
    } else {
        escape_text(s.drop_last()) + escape_char(s.last())
    }
}

/// `n` tabs.
pub open spec fn tabs(n: nat) -> Seq<char> {
    Seq::new(n, |i: int| '\t')
}

/// One `<key>`/`<string>` pair indented by `depth` tabs.
#[verifier::opaque]
pub open spec fn entry_text(depth: nat, key: Seq<char>, value: Seq<char>) -> Seq<char> {
    tabs(depth) + "<key>"@ + escape_text(key) + "</key>\n"@ + tabs(depth) + "<string>"@
        + escape_text(value) + "</string>\n"@
}

/// One `<string>` line per item, four tabs deep.
pub open spec fn items_text(items: Seq<Seq<char>>) -> Seq<char>
    decreases items.len(),
{
    if items.len() == 0 {
        Seq::empty()
    } else {
        items_text(items.drop_last()) + "\t\t\t\t<string>"@ + escape_text(items.last())
            + "</string>\n"@
    }
}

pub open spec fn strings_view(v: Seq<String>) -> Seq<Seq<char>> {
    v.map_values(|s: String| s@)
}

/// The XML prologue and the opening `<dict>`.
pub open spec fn plist_head() -> Seq<char> {
    "<?xml version=\"1.0\" encoding=\"UTF-8\"?>\n<!DOCTYPE plist PUBLIC \"-//Apple//DTD PLIST 1.0//EN\" \"http://www.apple.com/DTDs/PropertyList-1.0.dtd\">\n<plist version=\"1.0\">\n<dict>\n"@
}

/// The nine bundle keys every app has.
pub open spec fn bundle_keys_text(
    name: Seq<char>,
    identifier: Seq<char>,
    bin: Seq<char>,
    version: Seq<char>,
    min: Seq<char>,
) -> Seq<char> {
    entry_text(1, "CFBundleName"@, name) + entry_text(1, "CFBundleDisplayName"@, name) + entry_text(
        1,
        "CFBundleIdentifier"@,
        identifier,
    ) + entry_text(1, "CFBundleExecutable"@, bin) + entry_text(1, "CFBundlePackageType"@, "APPL"@)
        + entry_text(1, "CFBundleInfoDictionaryVersion"@, "6.0"@) + entry_text(
        1,
        "CFBundleVersion"@,
        "1"@,
    ) + entry_text(1, "CFBundleShortVersionString"@, version) + entry_text(
        1,
        "LSMinimumSystemVersion"@,
        min,
    )
}

/// The document types this app opens, as an alternate handler.
pub open spec fn document_types_text(name: Seq<char>, file_types: Seq<Seq<char>>) -> Seq<char> {
    if file_types.len() == 0 {
        Seq::empty()
    } else {
        "\t<key>CFBundleDocumentTypes</key>\n\t<array>\n\t\t<dict>\n"@ + entry_text(
            3,
            "CFBundleTypeName"@,
            name + " Document"@,
        ) + entry_text(3, "CFBundleTypeRole"@, "Editor"@) + entry_text(
            3,
            "LSHandlerRank"@,
            "Alternate"@,
        ) + "\t\t\t<key>LSItemContentTypes</key>\n\t\t\t<array>\n"@ + items_text(file_types)
            + "\t\t\t</array>\n\t\t</dict>\n\t</array>\n"@
    }
}

/// The URL schemes this app handles.
pub open spec fn url_types_text(identifier: Seq<char>, schemes: Seq<Seq<char>>) -> Seq<char> {
    if schemes.len() == 0 {
        Seq::empty()
    } else {
        "\t<key>CFBundleURLTypes</key>\n\t<array>\n\t\t<dict>\n"@ + entry_text(
            3,
            "CFBundleURLName"@,
            identifier,
        ) + "\t\t\t<key>CFBundleURLSchemes</key>\n\t\t\t<array>\n"@ + items_text(schemes)
            + "\t\t\t</array>\n\t\t</dict>\n\t</array>\n"@
    }
}

/// The whole `Info.plist`.
pub open spec fn plist_text(
    config: &Config,
    name: Seq<char>,
    identifier: Seq<char>,
    bin: Seq<char>,
    version: Seq<char>,
    has_icon: bool,
) -> Seq<char> {
    let min = match config.minimum_system_version {
        Some(m) => m@,
        None => "11.0"@,
    };
    plist_head() + bundle_keys_text(name, identifier, bin, version, min)
        + "\t<key>NSHighResolutionCapable</key>\n\t<true/>\n"@ + (if has_icon {
        entry_text(1, "CFBundleIconFile"@, "AppIcon"@)
    } else {
        Seq::empty()
    }) + (if config.agent {
        "\t<key>LSUIElement</key>\n\t<true/>\n"@
    } else {
        Seq::empty()
    }) + document_types_text(name, strings_view(config.file_types@)) + url_types_text(
        identifier,
        strings_view(config.url_schemes@),
    ) + "</dict>\n</plist>\n"@
}

/// `s` with `&`, `<` and `>` escaped for XML.
pub fn escape(s: &str) -> (r: String)
    ensures
        r@ == escape_text(s@),
{
    let chars = char_vec(s);
    let mut out = String::new();
    let mut i: usize = 0;
    while i < chars.len()
        invariant
            chars@ == s@,
            i <= chars@.len(),
            out@ == escape_text(chars@.subrange(0, i as int)),
        decreases chars@.len() - i,
    {
        let c = chars[i];
        if c == '&' {
            out.append("&amp;");
        } else if c == '<' {
            out.append("&lt;");
        } else if c == '>' {
            out.append("&gt;");
        } else {
            string_push(&mut out, c);
        }
        proof {
            let next = chars@.subrange(0, i + 1);
            assert(next.drop_last() =~= chars@.subrange(0, i as int));
            assert(next.last() == c);
            assert(out@ =~= escape_text(next));
        }
        i = i + 1;
    }
    assert(chars@.subrange(0, chars@.len() as int) =~= s@);
    out
}

fn push_tabs(out: &mut String, n: usize)
    ensures
        final(out)@ == old(out)@ + tabs(n as nat),
{
    let mut i: usize = 0;
    while i < n
        invariant
            i <= n,
            out@ == old(out)@ + tabs(i as nat),
        decreases n - i,
    {
        string_push(out, '\t');
        i = i + 1;
        assert(out@ =~= old(out)@ + tabs(i as nat));
    }
}

/// Append one `<key>`/`<string>` pair indented by `depth` tabs.
pub fn string_in(out: &mut String, depth: usize, key: &str, value: &str)
    ensures
        final(out)@ == old(out)@ + entry_text(depth as nat, key@, value@),
{
    push_tabs(out, depth);
    out.append("<key>");
    out.append(escape(key).as_str());
    out.append("</key>\n");
    push_tabs(out, depth);
    out.append("<string>");
    out.append(escape(value).as_str());
    out.append("</string>\n");
    proof {
        reveal(entry_text);
    }
    assert(out@ =~= old(out)@ + entry_text(depth as nat, key@, value@));
}

/// Append one top-level `<key>`/`<string>` pair.
pub fn string(out: &mut String, key: &str, value: &str)
    ensures
        final(out)@ == old(out)@ + entry_text(1, key@, value@),
{
    string_in(out, 1, key, value);
}

fn push_items(out: &mut String, items: &Vec<String>)
    ensures
        final(out)@ == old(out)@ + items_text(strings_view(items@)),
{
    let mut i: usize = 0;
    while i < items.len()
        invariant
            i <= items@.len(),
            out@ == old(out)@ + items_text(strings_view(items@.subrange(0, i as int))),
        decreases items@.len() - i,
    {
        out.append("\t\t\t\t<string>");
        out.append(escape(items[i].as_str()).as_str());
        out.append("</string>\n");
        proof {
            let next = strings_view(items@.subrange(0, i + 1));
            assert(next.drop_last() =~= strings_view(items@.subrange(0, i as int)));
            assert(next.last() == items@[i as int]@);
            assert(out@ =~= old(out)@ + items_text(next));
        }
        i = i + 1;
    }
    assert(items@.subrange(0, items@.len() as int) =~= items@);
}

/// The `Info.plist` for a bundle: identity, executable, version, the
/// minimum macOS (11.0 unless configured), the icon when there is one, the
/// agent flag, and the document types and URL schemes the app claims.
pub fn plist(
    config: &Config,
    name: &str,
    identifier: &str,
    bin: &str,
    version: &str,
    has_icon: bool,
) -> (r: String)
    ensures
        r@ == plist_text(config, name@, identifier@, bin@, version@, has_icon),
{
    let mut out = String::new();
    out.append(
        "<?xml version=\"1.0\" encoding=\"UTF-8\"?>\n<!DOCTYPE plist PUBLIC \"-//Apple//DTD PLIST 1.0//EN\" \"http://www.apple.com/DTDs/PropertyList-1.0.dtd\">\n<plist version=\"1.0\">\n<dict>\n",
    );
    let min: &str = match &config.minimum_system_version {
        Some(m) => m.as_str(),
        None => "11.0",
    };
    push_bundle_keys(&mut out, name, identifier, bin, version, min);
    out.append("\t<key>NSHighResolutionCapable</key>\n\t<true/>\n");
    if has_icon {
        string(&mut out, "CFBundleIconFile", "AppIcon");
    }
    if config.agent {
        out.append("\t<key>LSUIElement</key>\n\t<true/>\n");
    }
    push_document_types(&mut out, name, &config.file_types);
    push_url_types(&mut out, identifier, &config.url_schemes);
    out.append("</dict>\n</plist>\n");
    out
}

fn push_bundle_keys(
    out: &mut String,
    name: &str,
    identifier: &str,
    bin: &str,
    version: &str,
    min: &str,
)
    ensures
        final(out)@ == old(out)@ + bundle_keys_text(name@, identifier@, bin@, version@, min@),
{
    string(out, "CFBundleName", name);
    string(out, "CFBundleDisplayName", name);
    string(out, "CFBundleIdentifier", identifier);
    string(out, "CFBundleExecutable", bin);
    string(out, "CFBundlePackageType", "APPL");
    string(out, "CFBundleInfoDictionaryVersion", "6.0");
    string(out, "CFBundleVersion", "1");
    string(out, "CFBundleShortVersionString", version);
    string(out, "LSMinimumSystemVersion", min);
    assert(out@ =~= old(out)@ + bundle_keys_text(name@, identifier@, bin@, version@, min@));
}

fn push_document_types(out: &mut String, name: &str, file_types: &Vec<String>)
    ensures
        final(out)@ == old(out)@ + document_types_text(name@, strings_view(file_types@)),
{
    if file_types.len() != 0 {
        out.append("\t<key>CFBundleDocumentTypes</key>\n\t<array>\n\t\t<dict>\n");
        let mut document_name = String::from_str(name);
        document_name.append(" Document");
        string_in(out, 3, "CFBundleTypeName", document_name.as_str());
        string_in(out, 3, "CFBundleTypeRole", "Editor");
        string_in(out, 3, "LSHandlerRank", "Alternate");
        out.append("\t\t\t<key>LSItemContentTypes</key>\n\t\t\t<array>\n");
        push_items(out, file_types);
        out.append("\t\t\t</array>\n\t\t</dict>\n\t</array>\n");
    }
    assert(out@ =~= old(out)@ + document_types_text(name@, strings_view(file_types@)));
}

fn push_url_types(out: &mut String, identifier: &str, schemes: &Vec<String>)
    ensures
        final(out)@ == old(out)@ + url_types_text(identifier@, strings_view(schemes@)),
{
    if schemes.len() != 0 {
        out.append("\t<key>CFBundleURLTypes</key>\n\t<array>\n\t\t<dict>\n");
        string_in(out, 3, "CFBundleURLName", identifier);
        out.append("\t\t\t<key>CFBundleURLSchemes</key>\n\t\t\t<array>\n");
        push_items(out, schemes);
        out.append("\t\t\t</array>\n\t\t</dict>\n\t</array>\n");
    }
    assert(out@ =~= old(out)@ + url_types_text(identifier@, strings_view(schemes@)));
}

/// A target of the package, as `cargo metadata` lists it.
pub struct Target {
    pub name: String,
    pub is_bin: bool,
}

/// Why no single binary could be picked.
#[derive(Debug, Clone, Copy, PartialEq, Eq, Structural)]
pub enum BinNameError {
    /// The package has no `[[bin]]` target.
    NoBinary,
    /// More than one binary; not supported yet.
    SeveralBinaries,
}

impl BinNameError {
    /// The message the command prints.
    pub fn message(&self) -> (r: &'static str)
        ensures
            r@ == match self {
                BinNameError::NoBinary => "package has no [[bin]] target"@,
                BinNameError::SeveralBinaries => "package has more than one binary; not supported yet"@,
            },
    {
        match self {
            BinNameError::NoBinary => "package has no [[bin]] target",
            BinNameError::SeveralBinaries => "package has more than one binary; not supported yet",
        }
    }
}

/// How many of the first `k` targets are binaries.
pub open spec fn count_bins(targets: Seq<Target>, k: nat) -> nat
    decreases k,
{
    if k == 0 || k > targets.len() {
        0
    } else {
        count_bins(targets, (k - 1) as nat) + if targets[k - 1].is_bin {
            1nat
        } else {
            0nat
        }
    }
}

/// The package's one binary target: its name. No binary, or more than one,
/// is an error.
pub fn bin_name(targets: &Vec<Target>) -> (r: Result<String, BinNameError>)
    ensures
        count_bins(targets@, targets@.len()) == 0 ==> r == Err::<String, BinNameError>(
            BinNameError::NoBinary,
        ),
        count_bins(targets@, targets@.len()) > 1 ==> r == Err::<String, BinNameError>(
            BinNameError::SeveralBinaries,
        ),
        count_bins(targets@, targets@.len()) == 1 ==> (r matches Ok(n) && exists|i: int|
            0 <= i < targets@.len() && targets@[i].is_bin && n@ == targets@[i].name@),
{
    let mut found: Option<usize> = None;
    let mut i: usize = 0;
    while i < targets.len()
        invariant
            i <= targets@.len(),
            found is None ==> count_bins(targets@, i as nat) == 0,
            found matches Some(f) ==> f < i && targets@[f as int].is_bin && count_bins(
                targets@,
                i as nat,
            ) == 1,
        decreases targets@.len() - i,
    {
        if targets[i].is_bin {
            if found.is_some() {
                proof {
                    lemma_count_bins_mono(targets@, (i + 1) as nat, targets@.len());
                }
                return Err(BinNameError::SeveralBinaries);
            }
            found = Some(i);
        }
        i = i + 1;
    }
    match found {
        None => Err(BinNameError::NoBinary),
        Some(f) => Ok(targets[f].name.clone()),
    }
}

proof fn lemma_count_bins_mono(targets: Seq<Target>, j: nat, k: nat)
    requires
        j <= k <= targets.len(),
    ensures
        count_bins(targets, j) <= count_bins(targets, k),
    decreases k - j,
{
    if j < k {
        lemma_count_bins_mono(targets, j, (k - 1) as nat);
    }
}

/// What `cargo gangplank` was asked to do.
#[derive(Debug, Clone, PartialEq, Eq)]
pub enum Cli {
    /// `bundle [--release]`.
    Bundle { release: bool },
    /// `run [--release] [files...]`: bundle, then open it with the files.
    Run { release: bool, files: Vec<String> },
    /// `dmg [--release]`: bundle, then wrap it in a drag-to-install disk
    /// image, notarized when configured.
    Dmg { release: bool },
    /// Anything else: print the usage.
    Usage,
}

pub open spec fn is_flag(s: Seq<char>) -> bool {
    s.len() >= 2 && s[0] == '-' && s[1] == '-'
}

/// The arguments after a leading `gangplank`, which cargo passes when it
/// runs a subcommand.
pub open spec fn command_args(args: Seq<Seq<char>>) -> Seq<Seq<char>> {
    if args.len() > 0 && args[0] == "gangplank"@ {
        args.skip(1)
    } else {
        args
    }
}

/// The arguments that are not flags.
pub open spec fn non_flags(args: Seq<Seq<char>>) -> Seq<Seq<char>>
    decreases args.len(),
{
    if args.len() == 0 {
        Seq::empty()
    } else if is_flag(args.last()) {
        non_flags(args.drop_last())
    } else {
        non_flags(args.drop_last()).push(args.last())
    }
}

fn is_flag_str(s: &str) -> (r: bool)
    ensures
        r == is_flag(s@),
{
    let c = char_vec(s);
    c.len() >= 2 && c[0] == '-' && c[1] == '-'
}

/// Read the command line after the program name.
pub fn parse_cli(args: &Vec<String>) -> (r: Cli)
    ensures
        ({
            let a = command_args(strings_view(args@));
            let release = a.contains("--release"@);
            if a.len() > 0 && a[0] == "bundle"@ {
                r == Cli::Bundle { release }
            } else if a.len() > 0 && a[0] == "run"@ {
                r matches Cli::Run { release: rel, files } && rel == release && strings_view(files@)
                    == non_flags(a.skip(1))
            } else if a.len() > 0 && a[0] == "dmg"@ {
                r == Cli::Dmg { release }
            } else {
                r == Cli::Usage
            }
        }),
{
    let ghost all = strings_view(args@);
    let start: usize = if args.len() > 0 && str_eq(args[0].as_str(), "gangplank") {
        1
    } else {
        0
    };
    let ghost a = command_args(all);
    assert(a =~= all.skip(start as int));
    let mut release = false;
    let mut i: usize = start;
    while i < args.len()
        invariant
            start <= i <= args@.len(),
            all == strings_view(args@),
            a == all.skip(start as int),
            release == exists|k: int| start <= k < i && all[k] == "--release"@,
        decreases args@.len() - i,
    {
        assert(all[i as int] == args@[i as int]@);
        if str_eq(args[i].as_str(), "--release") {
            release = true;
        }
        i = i + 1;
    }
    assert(release == a.contains("--release"@)) by {
        if release {
            let k = choose|k: int| start <= k < args@.len() && all[k] == "--release"@;
            assert(a[k - start] == all[k]);
        }
        if a.contains("--release"@) {
            let k = choose|k: int| 0 <= k < a.len() && a[k] == "--release"@;
            assert(all[k + start] == a[k]);
        }
    }
    if start < args.len() {
        assert(a[0] == args@[start as int]@);
        if str_eq(args[start].as_str(), "bundle") {
            return Cli::Bundle { release };
        }
        if str_eq(args[start].as_str(), "run") {
            let mut files: Vec<String> = Vec::new();
            let mut j: usize = start + 1;
            let ghost tail = a.skip(1);
            assert(tail =~= all.skip(start + 1));
            while j < args.len()
                invariant
                    start + 1 <= j <= args@.len(),
                    all == strings_view(args@),
                    tail == all.skip(start + 1),
                    strings_view(files@) == non_flags(tail.subrange(0, j - start - 1)),
                decreases args@.len() - j,
            {
                proof {
                    let next = tail.subrange(0, j - start);
                    assert(next.drop_last() =~= tail.subrange(0, j - start - 1));
                    assert(next.last() == args@[j as int]@);
                }
                if !is_flag_str(args[j].as_str()) {
                    files.push(args[j].clone());
                    proof {
                        assert(strings_view(files@) =~= non_flags(tail.subrange(0, j - start - 1)).push(
                            args@[j as int]@,
                        ));
                    }
                }
                j = j + 1;
            }
            assert(tail.subrange(0, tail.len() as int) =~= tail);
            return Cli::Run { release, files };
        }
        if str_eq(args[start].as_str(), "dmg") {
            return Cli::Dmg { release };
        }
    }
    Cli::Usage
}


/// The cargo profile a build uses.
pub fn profile(release: bool) -> (r: &'static str)
    ensures
        r@ == (if release { "release"@ } else { "debug"@ }),
{
    if release {
        "release"
    } else {
        "debug"
    }
}

/// The bundle directory's name for an app called `name`.
pub fn app_dir_name(name: &str) -> (r: String)
    ensures
        r@ == name@ + ".app"@,
{
    let mut out = String::from_str(name);
    out.append(".app");
    out
}

/// The error for a metadata table without an identifier.
pub const MISSING_IDENTIFIER: &'static str = "[package.metadata.gangplank] needs `identifier`";

/// The app's display name and bundle identifier: the name falls back to
/// the package's; the identifier has no fallback.
pub fn bundle_names(config: &Config, package_name: &str) -> (r: Result<(String, String), &'static str>)
    ensures
        match config.identifier {
            Some(id) => r matches Ok((n, i)) && i@ == id@ && n@ == (match config.name {
                Some(m) => m@,
                None => package_name@,
            }),
            None => r == Err::<(String, String), &'static str>(MISSING_IDENTIFIER),
        },
{
    let identifier = match &config.identifier {
        Some(id) => id.clone(),
        None => {
            return Err(MISSING_IDENTIFIER);
        },
    };
    let name = match &config.name {
        Some(n) => n.clone(),
        None => String::from_str(package_name),
    };
    Ok((name, identifier))
}

/// The `(points, scale)` sizes an iconset holds, in the order they are made.
pub open spec fn icon_sizes() -> Seq<(nat, nat)> {
    seq![(16, 1), (16, 2), (32, 1), (32, 2), (128, 1), (128, 2), (256, 1), (256, 2), (512, 1), (512, 2)]
}

/// The file an iconset keeps a size in: `icon_16x16.png`,
/// `icon_16x16@2x.png` and so on.
pub open spec fn icon_file_name(points: nat, scale: nat) -> Seq<char> {
    "icon_"@ + decimal(points) + "x"@ + decimal(points) + (if scale == 1 {
        Seq::empty()
    } else {
        "@"@ + decimal(scale) + "x"@
    }) + ".png"@
}

/// One image of an iconset: its file name and its side in pixels.
pub struct IconSize {
    pub file_name: String,
    pub pixels: u32,
}

fn icon_size(points: u32, scale: u32) -> (r: IconSize)
    requires
        points <= 512,
        1 <= scale <= 2,
    ensures
        r.file_name@ == icon_file_name(points as nat, scale as nat),
        r.pixels == points * scale,
{
    let mut name = String::from_str("icon_");
    push_decimal(&mut name, points as usize);
    name.append("x");
    push_decimal(&mut name, points as usize);
    if scale != 1 {
        name.append("@");
        push_decimal(&mut name, scale as usize);
        name.append("x");
    }
    name.append(".png");
    assert(name@ =~= icon_file_name(points as nat, scale as nat));
    IconSize { file_name: name, pixels: points * scale }
}

/// Every image the iconset for an app icon holds, in order, each sized
/// `points * scale` pixels.
pub fn iconset_entries() -> (r: Vec<IconSize>)
    ensures
        r@.len() == icon_sizes().len(),
        forall|i: int|
            0 <= i < r@.len() ==> (#[trigger] r@[i]).file_name@ == icon_file_name(
                icon_sizes()[i].0,
                icon_sizes()[i].1,
            ) && r@[i].pixels == icon_sizes()[i].0 * icon_sizes()[i].1,
{
    let mut out: Vec<IconSize> = Vec::new();
    let points: [u32; 5] = [16, 32, 128, 256, 512];
    let mut i: usize = 0;
    while i < 5
        invariant
            i <= 5,
            points@ == seq![16u32, 32, 128, 256, 512],
            out@.len() == 2 * i,
            forall|k: int|
                0 <= k < out@.len() ==> (#[trigger] out@[k]).file_name@ == icon_file_name(
                    icon_sizes()[k].0,
                    icon_sizes()[k].1,
                ) && out@[k].pixels == icon_sizes()[k].0 * icon_sizes()[k].1,
        decreases 5 - i,
    {
        let p = points[i];
        assert(icon_sizes()[2 * i as int] == (p as nat, 1nat));
        assert(icon_sizes()[2 * i + 1] == (p as nat, 2nat));
        out.push(icon_size(p, 1));
        out.push(icon_size(p, 2));
        i = i + 1;
    }
    out
}


/// The identity `codesign` signs with: the configured Developer ID, else
/// `-`, an ad-hoc signature.
pub fn signing_identity(config: &Config) -> (r: String)
    ensures
        r@ == (match config.sign {
            Some(s) => s@,
            None => "-"@,
        }),
{
    match &config.sign {
        Some(s) => s.clone(),
        None => String::from_str("-"),
    }
}

/// The disk image's file name for an app called `name`.
pub fn dmg_file_name(name: &str) -> (r: String)
    ensures
        r@ == name@ + ".dmg"@,
{
    let mut out = String::from_str(name);
    out.append(".dmg");
    out
}

/// `part` occurs in `text`.
pub open spec fn contains_text(text: Seq<char>, part: Seq<char>) -> bool {
    exists|i: int| 0 <= i && i + part.len() <= text.len() && #[trigger] text.subrange(i, i + part.len()) == part
}

/// A top-level `<key>`/`<string>` pair as it reads in the plist.
pub open spec fn plist_entry(key: Seq<char>, value: Seq<char>) -> Seq<char> {
    "\t<key>"@ + key + "</key>\n\t<string>"@ + value + "</string>\n"@
}

/// Text with no `&`, `<` or `>` escapes to itself.
pub proof fn lemma_escape_plain(s: Seq<char>)
    requires
        forall|i: int| 0 <= i < s.len() ==> #[trigger] s[i] != '&' && s[i] != '<' && s[i] != '>',
    ensures
        escape_text(s) == s,
    decreases s.len(),
{
    if s.len() > 0 {
        let f = s.drop_last();
        assert forall|i: int| 0 <= i < f.len() implies #[trigger] f[i] != '&' && f[i] != '<' && f[i] != '>' by {
            assert(f[i] == s[i]);
        }
        lemma_escape_plain(f);
        assert(s[s.len() - 1] == s.last());
        assert(escape_char(s.last()) =~= seq![s.last()]);
        assert(f.push(s.last()) =~= s);
    }
}

proof fn lemma_contains_middle(a: Seq<char>, b: Seq<char>, c: Seq<char>)
    ensures
        contains_text(a + b + c, b),
{
    let t = a + b + c;
    assert(t.subrange(a.len() as int, (a.len() + b.len()) as int) =~= b);
}

proof fn lemma_top_entry(key: Seq<char>, value: Seq<char>)
    requires
        forall|i: int| 0 <= i < key.len() ==> #[trigger] key[i] != '&' && key[i] != '<' && key[i] != '>',
    ensures
        entry_text(1, key, value) == plist_entry(key, escape_text(value)),
{
    reveal(entry_text);
    lemma_escape_plain(key);
    reveal_strlit("\t");
    reveal_strlit("<key>");
    reveal_strlit("</key>\n");
    reveal_strlit("<string>");
    reveal_strlit("</string>\n");
    reveal_strlit("\t<key>");
    reveal_strlit("</key>\n\t<string>");
    assert(tabs(1) =~= "\t"@);
    assert(entry_text(1, key, value) =~= plist_entry(key, escape_text(value)));
}

proof fn lemma_contains_within(a: Seq<char>, b: Seq<char>, c: Seq<char>, x: Seq<char>)
    requires
        contains_text(b, x),
    ensures
        contains_text(a + b + c, x),
{
    let i = choose|i: int| 0 <= i && i + x.len() <= b.len() && #[trigger] b.subrange(i, i + x.len()) == x;
    let t = a + b + c;
    assert(t.subrange(a.len() + i, a.len() + i + x.len()) =~= b.subrange(i, i + x.len()));
}

/// The nine bundle keys hold each of the app's names in its own entry.
proof fn lemma_bundle_keys_entries(
    name: Seq<char>,
    identifier: Seq<char>,
    bin: Seq<char>,
    version: Seq<char>,
    min: Seq<char>,
)
    ensures
        ({
            let b = bundle_keys_text(name, identifier, bin, version, min);
            &&& contains_text(b, entry_text(1, "CFBundleName"@, name))
            &&& contains_text(b, entry_text(1, "CFBundleDisplayName"@, name))
            &&& contains_text(b, entry_text(1, "CFBundleIdentifier"@, identifier))
            &&& contains_text(b, entry_text(1, "CFBundleExecutable"@, bin))
            &&& contains_text(b, entry_text(1, "CFBundleShortVersionString"@, version))
            &&& contains_text(b, entry_text(1, "LSMinimumSystemVersion"@, min))
        }),
{
    let e1 = entry_text(1, "CFBundleName"@, name);
    let e2 = entry_text(1, "CFBundleDisplayName"@, name);
    let e3 = entry_text(1, "CFBundleIdentifier"@, identifier);
    let e4 = entry_text(1, "CFBundleExecutable"@, bin);
    let e5 = entry_text(1, "CFBundlePackageType"@, "APPL"@);
    let e6 = entry_text(1, "CFBundleInfoDictionaryVersion"@, "6.0"@);
    let e7 = entry_text(1, "CFBundleVersion"@, "1"@);
    let e8 = entry_text(1, "CFBundleShortVersionString"@, version);
    let e9 = entry_text(1, "LSMinimumSystemVersion"@, min);
    let b = bundle_keys_text(name, identifier, bin, version, min);
    let none = Seq::<char>::empty();
    assert(b =~= none + e1 + (e2 + e3 + e4 + e5 + e6 + e7 + e8 + e9));
    lemma_contains_middle(none, e1, e2 + e3 + e4 + e5 + e6 + e7 + e8 + e9);
    assert(b =~= e1 + e2 + (e3 + e4 + e5 + e6 + e7 + e8 + e9));
    lemma_contains_middle(e1, e2, e3 + e4 + e5 + e6 + e7 + e8 + e9);
    assert(b =~= (e1 + e2) + e3 + (e4 + e5 + e6 + e7 + e8 + e9));
    lemma_contains_middle(e1 + e2, e3, e4 + e5 + e6 + e7 + e8 + e9);
    assert(b =~= (e1 + e2 + e3) + e4 + (e5 + e6 + e7 + e8 + e9));
    lemma_contains_middle(e1 + e2 + e3, e4, e5 + e6 + e7 + e8 + e9);
    assert(b =~= (e1 + e2 + e3 + e4 + e5 + e6 + e7) + e8 + e9);
    lemma_contains_middle(e1 + e2 + e3 + e4 + e5 + e6 + e7, e8, e9);
    assert(b =~= (e1 + e2 + e3 + e4 + e5 + e6 + e7 + e8) + e9 + none);
    lemma_contains_middle(e1 + e2 + e3 + e4 + e5 + e6 + e7 + e8, e9, none);
}

/// The plist names the app: its name (as name and display name), bundle
/// identifier, executable and version each stand in their own entry, and
/// `LSMinimumSystemVersion` is the configured minimum, or 11.0 when none
/// is configured. Values are XML-escaped.
pub proof fn lemma_plist_names_the_app(
    config: &Config,
    name: Seq<char>,
    identifier: Seq<char>,
    bin: Seq<char>,
    version: Seq<char>,
    has_icon: bool,
)
    ensures
        ({
            let t = plist_text(config, name, identifier, bin, version, has_icon);
            let min = match config.minimum_system_version {
                Some(m) => m@,
                None => "11.0"@,
            };
            &&& contains_text(t, plist_entry("CFBundleName"@, escape_text(name)))
            &&& contains_text(t, plist_entry("CFBundleDisplayName"@, escape_text(name)))
            &&& contains_text(t, plist_entry("CFBundleIdentifier"@, escape_text(identifier)))
            &&& contains_text(t, plist_entry("CFBundleExecutable"@, escape_text(bin)))
            &&& contains_text(t, plist_entry("CFBundleShortVersionString"@, escape_text(version)))
            &&& contains_text(t, plist_entry("LSMinimumSystemVersion"@, escape_text(min)))
        }),
{
    reveal_strlit("CFBundleName");
    reveal_strlit("CFBundleDisplayName");
    reveal_strlit("CFBundleIdentifier");
    reveal_strlit("CFBundleExecutable");
    reveal_strlit("CFBundleShortVersionString");
    reveal_strlit("LSMinimumSystemVersion");
    let t = plist_text(config, name, identifier, bin, version, has_icon);
    let min = match config.minimum_system_version {
        Some(m) => m@,
        None => "11.0"@,
    };
    let h = plist_head();
    let b = bundle_keys_text(name, identifier, bin, version, min);
    let rest = t.subrange((h + b).len() as int, t.len() as int);
    assert(t =~= h + b + rest);
    lemma_bundle_keys_entries(name, identifier, bin, version, min);
    lemma_top_entry("CFBundleName"@, name);
    lemma_top_entry("CFBundleDisplayName"@, name);
    lemma_top_entry("CFBundleIdentifier"@, identifier);
    lemma_top_entry("CFBundleExecutable"@, bin);
    lemma_top_entry("CFBundleShortVersionString"@, version);
    lemma_top_entry("LSMinimumSystemVersion"@, min);
    lemma_contains_within(h, b, rest, entry_text(1, "CFBundleName"@, name));
    lemma_contains_within(h, b, rest, entry_text(1, "CFBundleDisplayName"@, name));
    lemma_contains_within(h, b, rest, entry_text(1, "CFBundleIdentifier"@, identifier));
    lemma_contains_within(h, b, rest, entry_text(1, "CFBundleExecutable"@, bin));
    lemma_contains_within(h, b, rest, entry_text(1, "CFBundleShortVersionString"@, version));
    lemma_contains_within(h, b, rest, entry_text(1, "LSMinimumSystemVersion"@, min));
}

/// The files `run` opens are the arguments after it that are not flags,
/// in their order: exactly the arguments that do not start with `--`.
pub proof fn lemma_non_flags_keeps_the_rest(args: Seq<Seq<char>>)
    ensures
        non_flags(args) == args.filter(|s: Seq<char>| !is_flag(s)),
    decreases args.len(),
{
    reveal(Seq::filter);
    if args.len() > 0 {
        lemma_non_flags_keeps_the_rest(args.drop_last());
    }
}

/// The binaries counted are the targets marked as binaries, no more and
/// no fewer.
pub proof fn lemma_count_bins_counts_binaries(targets: Seq<Target>, k: nat)
    requires
        k <= targets.len(),
    ensures
        count_bins(targets, k) == targets.subrange(0, k as int).filter(|t: Target| t.is_bin).len(),
    decreases k,
{
    reveal(Seq::filter);
    if k > 0 {
        lemma_count_bins_counts_binaries(targets, (k - 1) as nat);
        let s = targets.subrange(0, k as int);
        assert(s.drop_last() =~= targets.subrange(0, k - 1));
        assert(s.last() == targets[k - 1]);
    } else {
        assert(targets.subrange(0, 0).len() == 0);
    }
}

/// Escaped text never holds a bare `<` or `>`, so a value cannot close or
/// open a plist element; `&`, `<` and `>` become `&amp;`, `&lt;` and
/// `&gt;`, and every other character stays.
pub proof fn lemma_escape_closes_no_tag(s: Seq<char>)
    ensures
        forall|i: int| 0 <= i < escape_text(s).len() ==> #[trigger] escape_text(s)[i] != '<'
            && escape_text(s)[i] != '>',
        escape_text(s).len() >= s.len(),
        escape_text(s.push('&')) == escape_text(s) + "&amp;"@,
        escape_text(s.push('<')) == escape_text(s) + "&lt;"@,
        escape_text(s.push('>')) == escape_text(s) + "&gt;"@,
    decreases s.len(),
{
    reveal_strlit("&amp;");
    reveal_strlit("&lt;");
    reveal_strlit("&gt;");
    assert(s.push('&').drop_last() =~= s);
    assert(s.push('<').drop_last() =~= s);
    assert(s.push('>').drop_last() =~= s);
    if s.len() > 0 {
        lemma_escape_closes_no_tag(s.drop_last());
        let p = escape_text(s.drop_last());
        let e = escape_char(s.last());
        assert forall|i: int| 0 <= i < escape_text(s).len() implies #[trigger] escape_text(s)[i] != '<'
            && escape_text(s)[i] != '>' by {
            if i < p.len() {
                assert(escape_text(s)[i] == p[i]);
            } else {
                assert(escape_text(s)[i] == e[i - p.len()]);
            }
        }
    }
}

} // verus!
