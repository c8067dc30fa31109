//! The container detector itself: the marker snapshot, the detection
//! rules, and the decision whether the module produces output.

use crate::text::{
    find_char, find_char_spec, rfind_char, rfind_char_spec, trim, trim_end_quotes,
    trim_end_quotes_spec, trim_spec,
};
use vstd::prelude::*;

verus! {

/// A snapshot of the filesystem markers the detector reads, taken by
/// the caller. Contents fields are `None` where the file is absent or
/// unreadable; an unreadable marker counts as absent.
pub struct MarkerProbe {
    /// `/proc/vz` exists.
    pub proc_vz: bool,
    /// `/proc/bc` exists.
    pub proc_bc: bool,
    /// `/run/host/container-manager` exists.
    pub container_manager: bool,
    /// Contents of `/run/systemd/container`, where readable.
    pub systemd_container: Option<String>,
    /// `/run/.containerenv` exists.
    pub containerenv_present: bool,
    /// Contents of `/run/.containerenv`, where readable.
    pub containerenv_contents: Option<String>,
    /// `/.dockerenv` exists.
    pub dockerenv: bool,
}

/// The mathematical image of a [`MarkerProbe`]: file contents as
/// character sequences.
pub struct ProbeView {
    pub proc_vz: bool,
    pub proc_bc: bool,
    pub container_manager: bool,
    pub systemd_container: Option<Seq<char>>,
    pub containerenv_present: bool,
    pub containerenv_contents: Option<Seq<char>>,
    pub dockerenv: bool,
}

impl View for MarkerProbe {
    type V = ProbeView;

    open spec fn view(&self) -> ProbeView {
        ProbeView {
            proc_vz: self.proc_vz,
            proc_bc: self.proc_bc,
            container_manager: self.container_manager,
            systemd_container: match self.systemd_container {
                Some(s) => Some(s@),
                None => None,
            },
            containerenv_present: self.containerenv_present,
            containerenv_contents: match self.containerenv_contents {
                Some(s) => Some(s@),
                None => None,
            },
            dockerenv: self.dockerenv,
        }
    }
}

/// The marker that introduces an image tag inside `/run/.containerenv`:
/// the characters of `image="`.
pub open spec fn image_prefix() -> Seq<char> {
    seq!['i', 'm', 'a', 'g', 'e', '=', '"']
}

/// Whether a line opens with `image="`.
pub open spec fn has_image_prefix(l: Seq<char>) -> bool {
    l.len() >= 7 && l.subrange(0, 7) == image_prefix()
}

fn image_prefix_char(k: usize) -> (c: char)
    requires
        k < 7,
    ensures
        c == image_prefix()[k as int],
{
    if k == 0 {
        'i'
    } else if k == 1 {
        'm'
    } else if k == 2 {
        'a'
    } else if k == 3 {
        'g'
    } else if k == 4 {
        'e'
    } else if k == 5 {
        '='
    } else {
        '"'
    }
}

/// Whether the line opens with `image="`; the verified counterpart of
/// `str::starts_with` on that literal.
pub fn starts_with_image(l: &str) -> (r: bool)
    ensures
        r == has_image_prefix(l@),
{
    let len = l.unicode_len();
    if len < 7 {
        return false;
    }
    let mut k: usize = 0;
    while k < 7
        invariant
            0 <= k <= 7,
            len == l@.len(),
            len >= 7,
            forall|j: int| 0 <= j < k ==> l@[j] == image_prefix()[j],
        decreases 7 - k,
    {
        if l.get_char(k) != image_prefix_char(k) {
            proof {
                assert(l@.subrange(0, 7)[k as int] == l@[k as int]);
            }
            return false;
        }
        k = k + 1;
    }
    proof {
        assert(l@.subrange(0, 7) =~= image_prefix());
    }
    true
}

/// A single trailing carriage return removed, as `str::lines` strips it
/// from a line that a `\n` terminated.
pub open spec fn chomp_cr(l: Seq<char>) -> Seq<char> {
    if l.len() > 0 && l.last() == '\r' {
        l.drop_last()
    } else {
        l
    }
}

/// The lines of `s`, split exactly as `str::lines` splits them: at each
/// `\n`, with a `\r` directly before the `\n` stripped, the final line
/// ending optional, and a trailing `\r` on an unterminated last line kept.
pub open spec fn lines_spec(s: Seq<char>) -> Seq<Seq<char>>
    decreases s.len(),
    via lines_spec_decreases
{
    if s.len() == 0 {
        Seq::empty()
    } else {
        match find_char_spec(s, '\n') {
            Some(i) => seq![chomp_cr(s.take(i))] + lines_spec(s.skip(i + 1)),
            None => seq![s],
        }
    }
}

#[via_fn]
proof fn lines_spec_decreases(s: Seq<char>) {
    crate::text::lemma_find_char(s, '\n');
}

/// The first line that opens with `image="`, if any.
pub open spec fn find_image_line(ls: Seq<Seq<char>>) -> Option<Seq<char>>
    decreases ls.len(),
{
    if ls.len() == 0 {
        None
    } else if has_image_prefix(ls[0]) {
        Some(ls[0])
    } else {
        find_image_line(ls.drop_first())
    }
}

/// The image name an `image="..."` line carries: everything past the
/// opening marker, cut down to the part after the last `/` where one
/// occurs, with trailing `"` characters removed.
pub open spec fn image_name_spec(l: Seq<char>) -> Seq<char> {
    let r = l.skip(7);
    let name = match rfind_char_spec(r, '/') {
        Some(n) => r.skip(n + 1),
        None => r,
    };
    trim_end_quotes_spec(name)
}

/// The container name `/run/.containerenv` contents yield: the image
/// name of the first `image="` line, or `podman` where no line carries one.
pub open spec fn containerenv_name_spec(s: Seq<char>) -> Seq<char> {
    match find_image_line(lines_spec(s)) {
        Some(l) => image_name_spec(l),
        None => "podman"@,
    }
}

/// Extracts the image name from a line known to open with `image="`.
pub fn extract_image_name(l: &str) -> (r: String)
    requires
        has_image_prefix(l@),
    ensures
        r@ == image_name_spec(l@),
{
    let len = l.unicode_len();
    let rest = l.substring_char(7, len);
    proof {
        assert(rest@ =~= l@.skip(7));
    }
    let rest_len = rest.unicode_len();
    proof {
        crate::text::lemma_rfind_char(rest@, '/');
    }
    let name = match rfind_char(rest, '/') {
        Some(n) => {
            let cut = rest.substring_char(n + 1, rest_len);
            proof {
                assert(cut@ =~= rest@.skip(n + 1));
            }
            cut
        },
        None => rest,
    };
    trim_end_quotes(name).to_owned()
}

fn chomp_cr_line<'a>(l: &'a str) -> (r: &'a str)
    ensures
        r@ == chomp_cr(l@),
{
    let n = l.unicode_len();
    if n > 0 && l.get_char(n - 1) == '\r' {
        let r = l.substring_char(0, n - 1);
        proof {
            assert(r@ =~= l@.drop_last());
        }
        r
    } else {
        l
    }
}

/// The container name the contents of `/run/.containerenv` yield: scans
/// the lines for the first one opening with `image="` and extracts its
/// image name, defaulting to `podman` where no line carries one.
pub fn container_image_name(s: &str) -> (r: String)
    ensures
        r@ == containerenv_name_spec(s@),
{
    let len = s.unicode_len();
    let mut pos: usize = 0;
    proof {
        assert(s@.skip(0) =~= s@);
    }
    loop
        invariant
            0 <= pos <= len,
            len == s@.len(),
            find_image_line(lines_spec(s@)) == find_image_line(lines_spec(s@.skip(pos as int))),
        decreases len - pos,
    {
        if pos == len {
            proof {
                assert(s@.skip(pos as int) =~= Seq::<char>::empty());
            }
            return "podman".to_owned();
        }
        let rest = s.substring_char(pos, len);
        proof {
            assert(rest@ =~= s@.skip(pos as int));
        }
        let rest_len = len - pos;
        match find_char(rest, '\n') {
            Some(i) => {
                proof {
                    crate::text::lemma_find_char(rest@, '\n');
                }
                let raw = rest.substring_char(0, i);
                proof {
                    assert(raw@ =~= rest@.take(i as int));
                }
                let line = chomp_cr_line(raw);
                let ghost tail = lines_spec(rest@.skip(i + 1));
                proof {
                    assert(lines_spec(rest@) == seq![line@] + tail);
                    assert((seq![line@] + tail)[0] == line@);
                }
                if starts_with_image(line) {
                    return extract_image_name(line);
                }
                proof {
                    assert((seq![line@] + tail).drop_first() =~= tail);
                    assert(rest@.skip(i + 1) =~= s@.skip(pos + i + 1));
                }
                pos = pos + i + 1;
            },
            None => {
                proof {
                    assert(lines_spec(rest@) == seq![rest@]);
                    assert(seq![rest@][0] == rest@);
                }
                if starts_with_image(rest) {
                    return extract_image_name(rest);
                }
                proof {
                    assert(seq![rest@].drop_first() =~= Seq::<Seq<char>>::empty());
                    assert(find_image_line(Seq::<Seq<char>>::empty()) is None);
                    assert(find_image_line(lines_spec(rest@)) is None);
                    assert(containerenv_name_spec(s@) == "podman"@);
                }
                return "podman".to_owned();
            },
        }
    }
}

/// The container name the marker snapshot yields, first match winning:
/// `/proc/vz` without `/proc/bc` is OpenVZ; `/run/host/container-manager`
/// is OCI; readable `/run/systemd/container` contents that do not trim to
/// `wsl` are Systemd; a present `/run/.containerenv` names its image (or
/// `podman`); `/.dockerenv` is Docker; otherwise nothing.
pub open spec fn spec_detect(p: ProbeView) -> Option<Seq<char>> {
    if p.proc_vz && !p.proc_bc {
        Some("OpenVZ"@)
    } else if p.container_manager {
        Some("OCI"@)
    } else if p.systemd_container is Some && trim_spec(p.systemd_container->0) != "wsl"@ {
        Some("Systemd"@)
    } else if p.containerenv_present {
        Some(
            match p.containerenv_contents {
                Some(c) => containerenv_name_spec(c),
                None => "podman"@,
            },
        )
    } else if p.dockerenv {
        Some("Docker"@)
    } else {
        None
    }
}

fn is_wsl(t: &str) -> (r: bool)
    ensures
        r == (t@ == "wsl"@),
{
    proof {
        reveal_strlit("wsl");
    }
    let len = t.unicode_len();
    if len != 3 {
        return false;
    }
    let r = t.get_char(0) == 'w' && t.get_char(1) == 's' && t.get_char(2) == 'l';
    proof {
        if r {
            assert(t@ =~= "wsl"@);
        }
    }
    r
}

/// The ordered marker probe: returns the first matching runtime name, or
/// `None` when no marker signals a container.
pub fn container_name(probe: &MarkerProbe) -> (r: Option<String>)
    ensures
        match r {
            Some(name) => spec_detect(probe@) == Some(name@),
            None => spec_detect(probe@) is None,
        },
{
    if probe.proc_vz && !probe.proc_bc {
        return Some("OpenVZ".to_owned());
    }
    if probe.container_manager {
        return Some("OCI".to_owned());
    }
    match &probe.systemd_container {
        Some(contents) => {
            let trimmed = trim(contents.as_str());
            if !is_wsl(trimmed) {
                return Some("Systemd".to_owned());
            }
        },
        None => {},
    }
    if probe.containerenv_present {
        let name = match &probe.containerenv_contents {
            Some(contents) => container_image_name(contents.as_str()),
            None => "podman".to_owned(),
        };
        return Some(name);
    }
    if probe.dockerenv {
        return Some("Docker".to_owned());
    }
    None
}

/// The configuration the detector consumes: a disabled switch and the
/// display pieces an external template formatter substitutes.
pub struct ContainerConfig {
    /// The whole segment is suppressed when set.
    pub disabled: bool,
    /// The user-configurable display template.
    pub format: String,
    /// The glyph shown beside the runtime name.
    pub symbol: String,
    /// The style token applied to the segment.
    pub style: String,
}

/// What the module emits for a configuration and a marker snapshot:
/// nothing when disabled, otherwise whatever the probe detects.
pub open spec fn spec_module(disabled: bool, p: ProbeView) -> Option<Seq<char>> {
    if disabled {
        None
    } else {
        spec_detect(p)
    }
}

/// The detection step of the prompt segment: yields the runtime name to
/// be substituted into the display template, or `None` when the segment
/// is disabled or no container marker matches.
pub fn module(config: &ContainerConfig, probe: &MarkerProbe) -> (r: Option<String>)
    ensures
        config.disabled ==> r is None,
        match r {
            Some(name) => spec_module(config.disabled, probe@) == Some(name@),
            None => spec_module(config.disabled, probe@) is None,
        },
{
    if config.disabled {
        return None;
    }
    container_name(probe)
}

/// The decision after the external formatter has run: a rendering error
/// suppresses the whole segment, a rendered text is emitted as is.
pub fn accept_rendering(parsed: Result<String, String>) -> (r: Option<String>)
    ensures
        match parsed {
            Ok(segment) => r == Some(segment),
            Err(_) => r is None,
        },
{
    match parsed {
        Ok(segment) => Some(segment),
        Err(_) => None,
    }
}

/// Law: `/run/systemd/container` contents that trim to exactly `wsl` are
/// treated as no container at all — with no other marker set, the whole
/// detection stays empty, whatever surrounds the `wsl` word.
pub proof fn lemma_wsl_suppressed(p: ProbeView)
    requires
        !p.proc_vz || p.proc_bc,
        !p.container_manager,
        p.systemd_container is Some,
        trim_spec(p.systemd_container->0) == "wsl"@,
        !p.containerenv_present,
        !p.dockerenv,
    ensures
        spec_detect(p) is None,
{
}

/// Law: with every filesystem marker absent, detection yields nothing,
/// and the module emits no output whatever the configuration says.
pub proof fn lemma_no_markers_no_output(disabled: bool, p: ProbeView)
    requires
        !p.proc_vz,
        !p.container_manager,
        p.systemd_container is None,
        !p.containerenv_present,
        !p.dockerenv,
    ensures
        spec_detect(p) is None,
        spec_module(disabled, p) is None,
{
}

} // verus!
