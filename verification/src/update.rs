//! Checking and downloading updates: which addresses are trusted, how an installer
//! download is tried on the official source and its mirrors, and when the
//! downloaded bytes are accepted as an installer.

use vstd::prelude::*;
use crate::text::{
    ascii_lower, chars_of, contains, contains_seq, has_prefix, has_suffix, join, join_strings,
    replace_all, replace_chars, starts_with, string_of, to_ascii_lower, views,
};

verus! {

/// Release assets are only downloaded from this address (and mirrors of it).
pub const UPDATE_URL_PREFIX: &'static str = "https://github.com/Cyrene2008/CyreneCompass/releases/download/";

/// The smallest size accepted for an installer: 1 MiB.
pub const UPDATE_MIN_INSTALLER_SIZE: usize = 1048576;

/// Mirror prefixes tried after the official address, in order.
pub open spec fn mirror_prefixes() -> Seq<Seq<char>> {
    seq![
        "https://v4.gh-proxy.com/"@,
        "https://gh.昔涟.cn/"@,
        "https://ghproxy.net/"@,
        "https://ghfast.top/"@,
    ]
}

/// The addresses tried for `url`: the address itself, then each mirror prefix followed by it.
pub open spec fn candidate_urls(url: Seq<char>) -> Seq<Seq<char>> {
    seq![url].add(mirror_prefixes().map_values(|m: Seq<char>| m + url))
}

/// How an address appears in messages: the `v4.` mirror is shown by its public name.
pub open spec fn display_url(url: Seq<char>) -> Seq<char> {
    replace_all(url, "https://v4.gh-proxy.com/"@, "https://gh-proxy.com/"@)
}

/// A response of this content type is a web page or an API reply, not an installer.
pub open spec fn rejected_content_type(content_type: Seq<char>) -> bool {
    let t = ascii_lower(content_type);
    contains_seq(t, "text/html"@) || contains_seq(t, "application/json"@)
}

/// The download progress in percent while `len` of `total` bytes have arrived,
/// at most 99 until the download is complete.
pub open spec fn progress_of(len: int, total: int) -> int {
    let p = len * 99 / total;
    if p > 99 {
        99
    } else {
        p
    }
}

/// Why downloaded bytes are not accepted as an installer, if they are not.
pub open spec fn installer_problem(bytes: Seq<u8>, expected_size: u64) -> Option<Seq<char>> {
    if bytes.len() < UPDATE_MIN_INSTALLER_SIZE {
        Some(" 安装包体积异常"@)
    } else if expected_size > 0 && bytes.len() != expected_size {
        Some(" 安装包大小校验失败"@)
    } else if !(bytes.len() >= 2 && bytes[0] == 0x4d && bytes[1] == 0x5a) {
        Some(" 不是有效的 Windows 安装程序"@)
    } else {
        None
    }
}

/// Downloading an installer from the official address and its mirrors, one after
/// the other, collecting a message for every address that failed.
pub struct UpdateDownload {
    /// The addresses to try.
    pub candidates: Vec<String>,
    /// Index of the address being tried.
    pub next: usize,
    /// One message per failure, in order.
    pub failures: Vec<String>,
    /// The size announced by the release, 0 when unknown.
    pub expected_size: u64,
    /// The size used for progress, 0 when unknown.
    pub total: u64,
    /// The bytes received from the current address.
    pub bytes: Vec<u8>,
    /// The last progress reported.
    pub last_progress: u8,
}

impl UpdateDownload {
    pub open spec fn wf(&self) -> bool {
        &&& self.next <= self.candidates@.len()
        &&& self.candidates@.len() == 5
        &&& self.last_progress <= 99
    }

    /// The address being tried, if any is left.
    pub open spec fn current(&self) -> Seq<char> {
        self.candidates@[self.next as int]@
    }

    /// Everything but the failures, the position and the per-address data is kept.
    pub open spec fn same_setup(&self, other: &UpdateDownload) -> bool {
        &&& views(self.candidates@) == views(other.candidates@)
        &&& self.expected_size == other.expected_size
    }

    /// Starts a download of `url`, which must be an official release address.
    pub fn new(url: &str, expected_size: u64) -> (r: Result<UpdateDownload, String>)
        ensures
            r is Ok == has_prefix(url@, UPDATE_URL_PREFIX@),
            r matches Err(m) ==> m@ == "更新地址不属于 CyreneCompass 官方发布源"@,
            r matches Ok(d) ==> d.wf() && views(d.candidates@) == candidate_urls(url@) && d.next == 0
                && d.failures@.len() == 0 && d.expected_size == expected_size && d.bytes@.len() == 0
                && d.total == 0 && d.last_progress == 0,
    {
        let u = chars_of(url);
        let prefix = chars_of(UPDATE_URL_PREFIX);
        if !starts_with(&u, &prefix) {
            return Err(String::from_str("更新地址不属于 CyreneCompass 官方发布源"));
        }
        let mut candidates: Vec<String> = Vec::new();
        candidates.push(String::from_str(url));
        candidates.push(String::from_str("https://v4.gh-proxy.com/").concat(url));
        candidates.push(String::from_str("https://gh.昔涟.cn/").concat(url));
        candidates.push(String::from_str("https://ghproxy.net/").concat(url));
        candidates.push(String::from_str("https://ghfast.top/").concat(url));
        assert(views(candidates@) =~= candidate_urls(url@));
        Ok(UpdateDownload {
            candidates,
            next: 0,
            failures: Vec::new(),
            expected_size,
            total: 0,
            bytes: Vec::new(),
            last_progress: 0,
        })
    }

    /// The address to try next, `None` when all have failed.
    pub fn current_candidate(&self) -> (r: Option<String>)
        requires
            self.wf(),
        ensures
            r is None == (self.next == self.candidates@.len()),
            r matches Some(c) ==> c@ == self.current(),
    {
        if self.next < self.candidates.len() {
            Some(self.candidates[self.next].clone())
        } else {
            None
        }
    }

    fn fail_current(&mut self, message: String)
        requires
            old(self).wf(),
            old(self).next < old(self).candidates@.len(),
        ensures
            final(self).wf(),
            final(self).same_setup(old(self)),
            final(self).next == old(self).next + 1,
            views(final(self).failures@) == views(old(self).failures@).push(message@),
            final(self).bytes == old(self).bytes,
            final(self).total == old(self).total,
            final(self).last_progress == old(self).last_progress,
    {
        let ghost before = views(self.failures@);
        self.failures.push(message);
        assert(views(self.failures@) =~= before.push(message@));
        self.next = self.next + 1;
    }

    /// The current address answered with an HTTP error status (shown as `status`).
    pub fn record_http_status(&mut self, status: &str)
        requires
            old(self).wf(),
            old(self).next < old(self).candidates@.len(),
        ensures
            final(self).wf(),
            final(self).same_setup(old(self)),
            final(self).next == old(self).next + 1,
            views(final(self).failures@) == views(old(self).failures@).push(
                old(self).current() + " 返回 HTTP "@ + status@,
            ),
            final(self).bytes == old(self).bytes,
            final(self).total == old(self).total,
            final(self).last_progress == old(self).last_progress,
    {
        let mut m = self.candidates[self.next].clone();
        m.append(" 返回 HTTP ");
        m.append(status);
        self.fail_current(m);
    }

    /// The request to the current address failed (with the message `error`).
    pub fn record_request_error(&mut self, error: &str)
        requires
            old(self).wf(),
            old(self).next < old(self).candidates@.len(),
        ensures
            final(self).wf(),
            final(self).same_setup(old(self)),
            final(self).next == old(self).next + 1,
            views(final(self).failures@) == views(old(self).failures@).push(
                old(self).current() + "："@ + error@,
            ),
            final(self).bytes == old(self).bytes,
            final(self).total == old(self).total,
            final(self).last_progress == old(self).last_progress,
    {
        let mut m = self.candidates[self.next].clone();
        m.append("：");
        m.append(error);
        self.fail_current(m);
    }

    fn display_current(&self) -> (r: String)
        requires
            self.wf(),
            self.next < self.candidates@.len(),
        ensures
            r@ == display_url(self.current()),
    {
        let c = chars_of(self.candidates[self.next].as_str());
        let from = chars_of("https://v4.gh-proxy.com/");
        let to = chars_of("https://gh-proxy.com/");
        proof {
            reveal_strlit("https://v4.gh-proxy.com/");
        }
        string_of(&replace_chars(&c, &from, &to))
    }

    /// The current address answered successfully with this content type and length.
    /// A web page or JSON reply is a failure of the address (`false`); otherwise the
    /// body is about to be received (`true`): nothing has arrived yet, the progress
    /// starts at 0 and is measured against the announced size, or else the length.
    pub fn accept_response(&mut self, content_type: &str, content_length: Option<u64>) -> (ok: bool)
        requires
            old(self).wf(),
            old(self).next < old(self).candidates@.len(),
        ensures
            final(self).wf(),
            final(self).same_setup(old(self)),
            ok == !rejected_content_type(content_type@),
            !ok ==> final(self).next == old(self).next + 1 && views(final(self).failures@) == views(
                old(self).failures@,
            ).push(display_url(old(self).current()) + " 返回了非安装程序内容"@)
                && final(self).bytes == old(self).bytes && final(self).total == old(self).total
                && final(self).last_progress == old(self).last_progress,
            ok ==> final(self).next == old(self).next && final(self).failures == old(self).failures
                && final(self).bytes@.len() == 0 && final(self).last_progress == 0 && final(self).total
                == (if old(self).expected_size > 0 {
                old(self).expected_size
            } else {
                match content_length {
                    Some(n) => n,
                    None => 0,
                }
            }),
    {
        let t = to_ascii_lower(&chars_of(content_type));
        let html = contains(&t, &chars_of("text/html"));
        let json = contains(&t, &chars_of("application/json"));
        if html || json {
            let mut m = self.display_current();
            m.append(" 返回了非安装程序内容");
            self.fail_current(m);
            return false;
        }
        self.total = if self.expected_size > 0 {
            self.expected_size
        } else {
            match content_length {
                Some(n) => n,
                None => 0,
            }
        };
        self.bytes = Vec::new();
        self.last_progress = 0;
        true
    }

    /// A chunk of the body arrived.  Returns the new progress when it grew (it is
    /// reported only while the size is known, and stays below 100).
    pub fn receive_chunk(&mut self, chunk: &[u8]) -> (p: Option<u8>)
        requires
            old(self).wf(),
            old(self).bytes@.len() + chunk@.len() <= u64::MAX / 99,
        ensures
            final(self).wf(),
            final(self).same_setup(old(self)),
            final(self).next == old(self).next,
            final(self).failures == old(self).failures,
            final(self).total == old(self).total,
            final(self).bytes@ == old(self).bytes@ + chunk@,
            ({
                let q = progress_of(final(self).bytes@.len() as int, old(self).total as int);
                if old(self).total > 0 && q > old(self).last_progress {
                    p == Some(q as u8) && final(self).last_progress == q
                } else {
                    p is None && final(self).last_progress == old(self).last_progress
                }
            }),
    {
        self.bytes.extend_from_slice(chunk);
        if self.total > 0 {
            let len = self.bytes.len() as u64;
            let raw = len * 99 / self.total;
            let progress: u8 = if raw > 99 { 99 } else { raw as u8 };
            if progress > self.last_progress {
                self.last_progress = progress;
                return Some(progress);
            }
        }
        None
    }

    /// Receiving the body from the current address broke off with `error`: the
    /// failure is recorded and the bytes received so far are dropped.
    pub fn chunk_failed(&mut self, error: &str)
        requires
            old(self).wf(),
            old(self).next < old(self).candidates@.len(),
        ensures
            final(self).wf(),
            final(self).same_setup(old(self)),
            final(self).next == old(self).next,
            final(self).bytes@.len() == 0,
            views(final(self).failures@) == views(old(self).failures@).push(
                display_url(old(self).current()) + " 下载中断："@ + error@,
            ),
            final(self).total == old(self).total,
            final(self).last_progress == old(self).last_progress,
    {
        let mut m = self.display_current();
        m.append(" 下载中断：");
        m.append(error);
        let ghost before = views(self.failures@);
        self.failures.push(m);
        assert(views(self.failures@) =~= before.push(m@));
        self.bytes = Vec::new();
    }

    /// The body from the current address is complete.  The bytes are returned when
    /// they are an installer: at least 1 MiB, of the announced size when one was
    /// announced, and starting with `MZ`.  Otherwise the address failed.
    pub fn finish_candidate(&mut self) -> (r: Option<Vec<u8>>)
        requires
            old(self).wf(),
            old(self).next < old(self).candidates@.len(),
        ensures
            final(self).wf(),
            final(self).same_setup(old(self)),
            ({
                match installer_problem(old(self).bytes@, old(self).expected_size) {
                    None => r matches Some(b) && b@ == old(self).bytes@ && final(self).next == old(self).next
                        && final(self).failures == old(self).failures,
                    Some(problem) => r is None && final(self).next == old(self).next + 1 && views(
                        final(self).failures@,
                    ) == views(old(self).failures@).push(old(self).current() + problem),
                }
            }),
    {
        let len = self.bytes.len();
        let expected = self.expected_size;
        let problem: Option<&str> = if len < UPDATE_MIN_INSTALLER_SIZE {
            Some(" 安装包体积异常")
        } else if expected > 0 && len as u64 != expected {
            Some(" 安装包大小校验失败")
        } else if !(len >= 2 && self.bytes[0] == 0x4d && self.bytes[1] == 0x5a) {
            Some(" 不是有效的 Windows 安装程序")
        } else {
            None
        };
        match problem {
            Some(p) => {
                let mut m = self.candidates[self.next].clone();
                m.append(p);
                self.fail_current(m);
                None
            },
            None => {
                let b = self.bytes.clone();
                Some(b)
            },
        }
    }

    /// The error reported when every address failed: all failures, in order.
    pub fn failure_message(&self) -> (r: String)
        ensures
            r@ == "更新下载失败："@ + join(views(self.failures@), "；"@),
    {
        let mut r = String::from_str("更新下载失败：");
        let joined = join_strings(&self.failures, "；");
        r.append(joined.as_str());
        r
    }
}


/// The addresses asked for the latest release, in order: the API itself, then its mirror.
pub open spec fn release_api_urls() -> Seq<Seq<char>> {
    seq![
        "https://api.github.com/repos/Cyrene2008/CyreneCompass/releases/latest"@,
        "https://api.kkgithub.com/repos/Cyrene2008/CyreneCompass/releases/latest"@,
    ]
}

/// What the update check does next.
pub enum ReleaseCheckStep {
    /// Ask this address for the latest release.
    Ask(String),
    /// The last reply is the release.
    Accept,
    /// Every address failed; report this message.
    GiveUp(String),
}

/// The next step of the update check after `asked` addresses have been asked;
/// `last_ok` says whether the last one answered with a 2xx status and a JSON body.
/// The first good reply is taken; otherwise the next address is asked, and when
/// none is left the check gives up.
pub fn release_check_step(asked: usize, last_ok: bool) -> (r: ReleaseCheckStep)
    requires
        asked <= 2,
    ensures
        asked > 0 && last_ok ==> r is Accept,
        !(asked > 0 && last_ok) && asked < 2 ==> (r matches ReleaseCheckStep::Ask(u) && u@
            == release_api_urls()[asked as int]),
        !(asked > 0 && last_ok) && asked == 2 ==> (r matches ReleaseCheckStep::GiveUp(m) && m@
            == "无法连接到更新服务器"@),
{
    if asked > 0 && last_ok {
        ReleaseCheckStep::Accept
    } else if asked == 0 {
        ReleaseCheckStep::Ask(
            String::from_str("https://api.github.com/repos/Cyrene2008/CyreneCompass/releases/latest"),
        )
    } else if asked == 1 {
        ReleaseCheckStep::Ask(
            String::from_str("https://api.kkgithub.com/repos/Cyrene2008/CyreneCompass/releases/latest"),
        )
    } else {
        ReleaseCheckStep::GiveUp(String::from_str("无法连接到更新服务器"))
    }
}

/// Every address tried is the release address itself or a mirror prefix followed by
/// it, and the official address comes first.
pub proof fn law_candidates_carry_the_address(url: Seq<char>)
    ensures
        candidate_urls(url).len() == 5,
        candidate_urls(url)[0] == url,
        forall|i: int| 0 <= i < 5 ==> has_suffix(#[trigger] candidate_urls(url)[i], url),
{
    assert forall|i: int| 0 <= i < 5 implies has_suffix(#[trigger] candidate_urls(url)[i], url) by {
        let c = candidate_urls(url)[i];
        if i == 0 {
            assert(c.skip(0) =~= url);
        } else {
            let m = mirror_prefixes()[i - 1];
            assert(c == m + url);
            assert(c.skip(c.len() - url.len()) =~= url);
        }
    }
}

/// Accepted installer bytes are at least 1 MiB long, start with `MZ`, and have the
/// announced size whenever a size was announced.
pub proof fn law_accepted_installers(bytes: Seq<u8>, expected_size: u64)
    requires
        installer_problem(bytes, expected_size) is None,
    ensures
        bytes.len() >= UPDATE_MIN_INSTALLER_SIZE,
        bytes[0] == 0x4d && bytes[1] == 0x5a,
        expected_size > 0 ==> bytes.len() == expected_size,
{
}

/// Progress stays at or below 99 and does not go back as more bytes arrive.
pub proof fn law_progress_bounded_and_monotone(len1: int, len2: int, total: int)
    requires
        0 <= len1 <= len2,
        total > 0,
    ensures
        0 <= progress_of(len1, total) <= progress_of(len2, total) <= 99,
{
    assert(len1 * 99 <= len2 * 99) by (nonlinear_arith)
        requires
            len1 <= len2,
    ;
    assert(0 <= len1 * 99) by (nonlinear_arith)
        requires
            0 <= len1,
    ;
    vstd::arithmetic::div_mod::lemma_div_is_ordered(len1 * 99, len2 * 99, total);
    vstd::arithmetic::div_mod::lemma_div_pos_is_pos(len1 * 99, total);
}

/// The progress is the whole percentage of `99 * len / total` that has been reached,
/// held at 99 until the download is complete: `p * total <= 99 * len`, and unless
/// `p` is 99, `99 * len < (p + 1) * total`.
pub proof fn law_progress_is_whole_percent(len: int, total: int)
    requires
        0 <= len,
        total > 0,
    ensures
        0 <= progress_of(len, total) <= 99,
        progress_of(len, total) * total <= 99 * len,
        progress_of(len, total) < 99 ==> 99 * len < (progress_of(len, total) + 1) * total,
{
    let q = len * 99 / total;
    let m = len * 99 % total;
    vstd::arithmetic::div_mod::lemma_fundamental_div_mod(len * 99, total);
    assert(0 <= m < total);
    assert(0 <= len * 99) by (nonlinear_arith)
        requires
            0 <= len,
    ;
    vstd::arithmetic::div_mod::lemma_div_pos_is_pos(len * 99, total);
    assert(len * 99 == total * q + m);
    if q > 99 {
        assert(99 * total <= q * total) by (nonlinear_arith)
            requires
                q > 99,
                total > 0,
        ;
        assert(q * total == total * q) by (nonlinear_arith);
    } else {
        assert(q * total == total * q) by (nonlinear_arith);
        assert((q + 1) * total == q * total + total) by (nonlinear_arith);
    }
}

/// The file name of a path as `std::path::Path::file_name` finds it: its final
/// component, unless that is `..` or there is none.  It follows the path syntax of
/// the platform the program is built for.
pub uninterp spec fn path_file_name_of(path: Seq<char>) -> Option<Seq<char>>;

/// Calls `std::path::Path::file_name` and converts the result to a `String`.
/// Trusted claim: the result is `path_file_name_of` of the path, a function of the
/// path alone; nothing more is stated about it.
#[verifier::external_body]
fn path_file_name(path: &str) -> (r: Option<String>)
    ensures
        crate::command::opt_view(r) == path_file_name_of(path@),
{
    match std::path::Path::new(path).file_name() {
        Some(name) => match name.to_str() {
            Some(text) => Some(text.to_string()),
            None => None,
        },
        None => None,
    }
}

/// The official installer names: `CyreneCompass_…_x64-setup.exe`.
pub open spec fn official_installer_name(name: Seq<char>) -> bool {
    has_prefix(name, "CyreneCompass_"@) && has_suffix(name, "_x64-setup.exe"@)
}

/// The result of checking the installer name `file_name`, whose file-name component is `component`.
pub open spec fn installer_name_spec(file_name: Seq<char>, component: Option<Seq<char>>, r: Result<String, String>) -> bool {
    match component {
        None => r matches Err(m) && m@ == "安装包文件名无效"@,
        Some(safe) => if safe != file_name || !official_installer_name(safe) {
            r matches Err(m) && m@ == "安装包文件名不属于 CyreneCompass 官方格式"@
        } else {
            r matches Ok(n) && n@ == file_name
        },
    }
}

/// Checks the name of an installer to download, given its file-name component: it
/// must be a bare file name (no directories) in the official format.
pub fn installer_name_check(file_name: &str, component: Option<String>) -> (r: Result<String, String>)
    ensures
        installer_name_spec(file_name@, crate::command::opt_view(component), r),
{
    match component {
        None => Err(String::from_str("安装包文件名无效")),
        Some(safe) => {
            let c = chars_of(safe.as_str());
            let official = starts_with(&c, &chars_of("CyreneCompass_")) && crate::text::ends_with(
                &c,
                &chars_of("_x64-setup.exe"),
            );
            if !crate::text::str_eq(safe.as_str(), file_name) || !official {
                return Err(String::from_str("安装包文件名不属于 CyreneCompass 官方格式"));
            }
            Ok(safe)
        },
    }
}

/// Checks the name of an installer to download (see `installer_name_check`).
pub fn update_installer_name(file_name: &str) -> (r: Result<String, String>)
    ensures
        installer_name_spec(file_name@, path_file_name_of(file_name@), r),
{
    let component = path_file_name(file_name);
    installer_name_check(file_name, component)
}

/// The project's repository; it and pages below it may be opened.
pub open spec fn repository_url() -> Seq<char> {
    "https://github.com/Cyrene2008/CyreneCompass"@
}

/// The addresses that may be opened in the browser: the repository and its pages,
/// and the GPL v3 licence text.
pub open spec fn external_url_allowed_spec(url: Seq<char>) -> bool {
    ||| url == repository_url()
    ||| has_prefix(url, repository_url() + "/"@)
    ||| url == "https://www.gnu.org/licenses/gpl-3.0.html"@
    ||| url == "https://www.gnu.org/licenses/gpl-3.0.en.html"@
}

/// Whether `url` may be opened in the browser.
pub fn external_url_allowed(url: &str) -> (r: bool)
    ensures
        r == external_url_allowed_spec(url@),
{
    let repository = "https://github.com/Cyrene2008/CyreneCompass";
    let u = chars_of(url);
    let below = String::from_str(repository).concat("/");
    let below_chars = chars_of(below.as_str());
    crate::text::str_eq(url, repository) || starts_with(&u, &below_chars) || crate::text::str_eq(
        url,
        "https://www.gnu.org/licenses/gpl-3.0.html",
    ) || crate::text::str_eq(url, "https://www.gnu.org/licenses/gpl-3.0.en.html")
}

} // verus!
