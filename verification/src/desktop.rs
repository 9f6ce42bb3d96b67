//! Menu-entry files: the freedesktop-style key/value format, its parser,
//! in-place mutators and serializer.

use vstd::prelude::*;
use vstd::string::StringExecFns;
use crate::kv;
use crate::paths;
use crate::text;

verus! {

/// Failures of menu-entry handling.
#[derive(Debug, Clone, PartialEq, Eq)]
pub enum DesktopError {
    /// An I/O failure, with a short description.
    Io(String),
    /// The file is not in the expected shape.
    Parse(String),
    /// A mandatory field is absent; its name is carried.
    MissingField(String),
    /// The entry is not usable.
    Invalid,
}

/// A parsed menu-entry file: the flat `[Desktop Entry]` table and one table
/// per `[Desktop Action ...]` section.
#[derive(Debug, Clone)]
pub struct DesktopEntry {
    entries: Vec<(String, String)>,
    actions: Vec<(String, Vec<(String, String)>)>,
}

impl DesktopEntry {
    /// Keys are unique in the main table, in the action-name table and in
    /// every action's own table.
    pub closed spec fn wf(self) -> bool {
        &&& kv::kv_unique(self.entries@)
        &&& kv::kv_unique(self.actions@)
        &&& forall|i: int|
            0 <= i < self.actions@.len() ==> kv::kv_unique(#[trigger] self.actions@[i].1@)
    }

    /// The value bound to `k` in the `[Desktop Entry]` table.
    pub closed spec fn entry_of(self, k: Seq<char>) -> Option<String> {
        kv::kv_lookup(self.entries@, k)
    }

    /// The table of the action named `name`.
    pub closed spec fn action_of(self, name: Seq<char>) -> Option<Vec<(String, String)>> {
        kv::kv_lookup(self.actions@, name)
    }

    pub closed spec fn spec_entries(self) -> Seq<(String, String)> {
        self.entries@
    }

    pub closed spec fn spec_actions(self) -> Seq<(String, Vec<(String, String)>)> {
        self.actions@
    }

    /// The application's display name.
    pub fn name(&self) -> (r: Option<&str>)
        ensures
            match r {
                Some(s) => self.entry_of("Name"@) matches Some(v) && s@ == v@,
                None => self.entry_of("Name"@) is None,
            },
    {
        match kv::kv_get(&self.entries, "Name") {
            Some(v) => Some(v.as_str()),
            None => None,
        }
    }

    /// The launch command.
    pub fn exec(&self) -> (r: Option<&str>)
        ensures
            match r {
                Some(s) => self.entry_of("Exec"@) matches Some(v) && s@ == v@,
                None => self.entry_of("Exec"@) is None,
            },
    {
        match kv::kv_get(&self.entries, "Exec") {
            Some(v) => Some(v.as_str()),
            None => None,
        }
    }

    /// The icon name or path.
    pub fn icon(&self) -> (r: Option<&str>)
        ensures
            match r {
                Some(s) => self.entry_of("Icon"@) matches Some(v) && s@ == v@,
                None => self.entry_of("Icon"@) is None,
            },
    {
        match kv::kv_get(&self.entries, "Icon") {
            Some(v) => Some(v.as_str()),
            None => None,
        }
    }

    /// The entry's `Type` field.
    pub fn entry_type(&self) -> (r: Option<&str>)
        ensures
            match r {
                Some(s) => self.entry_of("Type"@) matches Some(v) && s@ == v@,
                None => self.entry_of("Type"@) is None,
            },
    {
        match kv::kv_get(&self.entries, "Type") {
            Some(v) => Some(v.as_str()),
            None => None,
        }
    }

    /// The stamped correlation identifier, if any.
    pub fn appimage_identifier(&self) -> (r: Option<&str>)
        ensures
            match r {
                Some(s) => self.entry_of("X-AppImage-Identifier"@) matches Some(v) && s@ == v@,
                None => self.entry_of("X-AppImage-Identifier"@) is None,
            },
    {
        match kv::kv_get(&self.entries, "X-AppImage-Identifier") {
            Some(v) => Some(v.as_str()),
            None => None,
        }
    }

    /// Point `Icon` at the given name or path.
    pub fn set_icon(&mut self, icon: &str)
        ensures
            final(self).entry_of("Icon"@) matches Some(v) && v@ == icon@,
            forall|k: Seq<char>|
                k != "Icon"@ ==> final(self).entry_of(k) == old(self).entry_of(k),
            final(self).spec_actions() == old(self).spec_actions(),
            old(self).wf() ==> final(self).wf(),
    {
        kv::kv_set(&mut self.entries, "Icon", String::from_str(icon));
    }

    /// Stamp the correlation identifier.
    pub fn set_appimage_identifier(&mut self, identifier: &str)
        ensures
            final(self).entry_of("X-AppImage-Identifier"@) matches Some(v) && v@ == identifier@,
            forall|k: Seq<char>|
                k != "X-AppImage-Identifier"@ ==> final(self).entry_of(k) == old(self).entry_of(
                    k,
                ),
            final(self).spec_actions() == old(self).spec_actions(),
            old(self).wf() ==> final(self).wf(),
    {
        kv::kv_set(&mut self.entries, "X-AppImage-Identifier", String::from_str(identifier));
    }

    /// Point `TryExec` at the bundle itself, unquoted.
    pub fn set_try_exec(&mut self, appimage_path: &str)
        ensures
            final(self).entry_of("TryExec"@) matches Some(v) && v@ == appimage_path@,
            forall|k: Seq<char>|
                k != "TryExec"@ ==> final(self).entry_of(k) == old(self).entry_of(k),
            final(self).spec_actions() == old(self).spec_actions(),
            old(self).wf() ==> final(self).wf(),
    {
        kv::kv_set(&mut self.entries, "TryExec", String::from_str(appimage_path));
    }
}

/// The arguments of a launch command: its blank-separated words after the
/// first, joined with single spaces.
pub open spec fn exec_args_sp(s: Seq<char>) -> Seq<char> {
    let parts = text::split_ws(s);
    if parts.len() <= 1 {
        Seq::empty()
    } else {
        text::join_sp(parts.drop_first())
    }
}

/// A launch command rewritten to invoke `path` directly: the path in double
/// quotes, followed by the original command's arguments when it had any.
pub open spec fn rewritten_exec(path: Seq<char>, orig: Seq<char>) -> Seq<char> {
    let args = exec_args_sp(orig);
    if args.len() == 0 {
        seq!['"'] + path + seq!['"']
    } else {
        seq!['"'] + path + seq!['"'] + seq![' '] + args
    }
}

/// The arguments of an `Exec` value, everything after its first word.
pub fn extract_exec_args(exec: &str) -> (r: String)
    ensures
        r@ == exec_args_sp(exec@),
{
    let chars = text::to_chars(exec);
    let words = text::split_whitespace(&chars);
    let ghost wv = words@.map_values(|x: Vec<char>| x@);
    if words.len() <= 1 {
        String::new()
    } else {
        let mut tail: Vec<Vec<char>> = Vec::new();
        let mut k: usize = 1;
        proof {
            assert(tail@.map_values(|x: Vec<char>| x@) =~= wv.subrange(1, 1));
        }
        while k < words.len()
            invariant
                1 <= k <= words@.len(),
                wv == words@.map_values(|x: Vec<char>| x@),
                tail@.map_values(|x: Vec<char>| x@) == wv.subrange(1, k as int),
            decreases words@.len() - k,
        {
            let w = text::subvec(&words[k], 0, words[k].len());
            proof {
                assert(w@ =~= wv[k as int]);
                assert((tail@.push(w)).map_values(|x: Vec<char>| x@) =~= tail@.map_values(
                    |x: Vec<char>| x@,
                ).push(w@));
                assert(wv.subrange(1, k + 1 as int) =~= wv.subrange(1, k as int).push(
                    wv[k as int],
                ));
            }
            tail.push(w);
            k += 1;
        }
        let joined = text::join_spaces(&tail);
        proof {
            assert(wv.subrange(1, wv.len() as int) =~= wv.drop_first());
        }
        text::from_chars(&joined)
    }
}

/// Build the quoted launch command for `path`, keeping `orig`'s arguments.
fn build_exec_value(path: &str, orig: &str) -> (r: String)
    ensures
        r@ == rewritten_exec(path@, orig@),
{
    let args = extract_exec_args(orig);
    let quote = text::to_chars("\"");
    let pc = text::to_chars(path);
    let mut v = text::concat_chars(&quote, &pc);
    let v = text::concat_chars(&v, &quote);
    proof {
        reveal_strlit("\"");
        assert(quote@ =~= seq!['"']);
    }
    if args.as_str().unicode_len() == 0 {
        proof {
            assert(exec_args_sp(orig@).len() == 0);
        }
        text::from_chars(&v)
    } else {
        let sp = text::to_chars(" ");
        let ac = text::to_chars(args.as_str());
        let v = text::concat_chars(&v, &sp);
        let v = text::concat_chars(&v, &ac);
        proof {
            reveal_strlit(" ");
            assert(sp@ =~= seq![' ']);
            assert(v@ =~= seq!['"'] + path@ + seq!['"'] + seq![' '] + exec_args_sp(orig@));
        }
        text::from_chars(&v)
    }
}

impl DesktopEntry {
    /// Rewrite `Exec` to launch `path` directly, preserving the arguments
    /// of the original command.
    pub fn set_exec(&mut self, appimage_path: &str)
        ensures
            ({
                let orig = match old(self).entry_of("Exec"@) {
                    Some(v) => v@,
                    None => Seq::<char>::empty(),
                };
                final(self).entry_of("Exec"@) matches Some(v) && v@ == rewritten_exec(
                    appimage_path@,
                    orig,
                )
            }),
            forall|k: Seq<char>| k != "Exec"@ ==> final(self).entry_of(k) == old(self).entry_of(k),
            final(self).spec_actions() == old(self).spec_actions(),
            old(self).wf() ==> final(self).wf(),
    {
        let orig = match kv::kv_get(&self.entries, "Exec") {
            Some(v) => v.clone(),
            None => String::new(),
        };
        let new_exec = build_exec_value(appimage_path, orig.as_str());
        kv::kv_set(&mut self.entries, "Exec", new_exec);
    }
}

/// A character allowed in a window-class hint: ASCII letters and digits,
/// `-` and `_`.
pub open spec fn is_wm_char(c: char) -> bool {
    (48 <= c as u32 <= 57) || (65 <= c as u32 <= 90) || (97 <= c as u32 <= 122) || c == '-' || c
        == '_'
}

/// A display name reduced to its window-class characters, in order.
pub open spec fn wm_class_sp(s: Seq<char>) -> Seq<char>
    decreases s.len(),
{
    if s.len() == 0 {
        Seq::empty()
    } else {
        wm_class_sp(s.drop_last()) + (if is_wm_char(s.last()) {
            seq![s.last()]
        } else {
            Seq::empty()
        })
    }
}

fn wm_class_chars(v: &Vec<char>) -> (r: Vec<char>)
    ensures
        r@ == wm_class_sp(v@),
{
    let n = v.len();
    let mut r: Vec<char> = Vec::new();
    let mut i: usize = 0;
    proof {
        assert(v@.subrange(0, 0) =~= Seq::<char>::empty());
        assert(r@ =~= wm_class_sp(v@.subrange(0, 0)));
    }
    while i < n
        invariant
            i <= n,
            n == v@.len(),
            r@ == wm_class_sp(v@.subrange(0, i as int)),
        decreases n - i,
    {
        let c = v[i];
        let u = c as u32;
        proof {
            let t = v@.subrange(0, i + 1 as int);
            assert(t.drop_last() =~= v@.subrange(0, i as int));
            assert(t.last() == v@[i as int]);
        }
        if (48 <= u && u <= 57) || (65 <= u && u <= 90) || (97 <= u && u <= 122) || c == '-' || c
            == '_' {
            r.push(c);
        }
        i += 1;
    }
    proof {
        assert(v@.subrange(0, n as int) =~= v@);
    }
    r
}

impl DesktopEntry {
    /// Derive and set a window-class hint from the display name, only when
    /// none is present and the derived value is non-empty.
    pub fn ensure_startup_wm_class(&mut self)
        ensures
            old(self).entry_of("StartupWMClass"@) is Some ==> *final(self) == *old(self),
            old(self).entry_of("StartupWMClass"@) is None ==> match old(self).entry_of("Name"@) {
                Some(nm) => if wm_class_sp(nm@).len() == 0 {
                    *final(self) == *old(self)
                } else {
                    &&& final(self).entry_of("StartupWMClass"@) matches Some(v) && v@
                        == wm_class_sp(nm@)
                    &&& forall|k: Seq<char>|
                        k != "StartupWMClass"@ ==> final(self).entry_of(k) == old(self).entry_of(
                            k,
                        )
                    &&& final(self).spec_actions() == old(self).spec_actions()
                },
                None => *final(self) == *old(self),
            },
            old(self).wf() ==> final(self).wf(),
    {
        if kv::kv_find(&self.entries, "StartupWMClass").is_some() {
            return ;
        }
        let nm = match kv::kv_get(&self.entries, "Name") {
            Some(v) => v.clone(),
            None => {
                return ;
            },
        };
        let nc = text::to_chars(nm.as_str());
        let w = wm_class_chars(&nc);
        if w.len() == 0 {
            return ;
        }
        kv::kv_set(&mut self.entries, "StartupWMClass", text::from_chars(&w));
    }
}

/// One action table after the Exec rewrite: its launch command now invokes
/// `path` with the old command's arguments kept; everything else is as it
/// was, and a table without an `Exec` is untouched.
pub open spec fn action_exec_rewritten(
    oldv: Seq<(String, String)>,
    newv: Seq<(String, String)>,
    path: Seq<char>,
) -> bool {
    &&& match kv::kv_lookup(oldv, "Exec"@) {
        Some(v) => kv::kv_lookup(newv, "Exec"@) matches Some(v2) && v2@ == rewritten_exec(
            path,
            v@,
        ),
        None => newv == oldv,
    }
    &&& forall|k: Seq<char>| k != "Exec"@ ==> kv::kv_lookup(newv, k) == kv::kv_lookup(oldv, k)
}

impl DesktopEntry {
    /// Apply the Exec rewrite to every action section that has a launch
    /// command.
    pub fn update_action_exec(&mut self, appimage_path: &str)
        ensures
            final(self).spec_entries() == old(self).spec_entries(),
            final(self).spec_actions().len() == old(self).spec_actions().len(),
            forall|j: int|
                0 <= j < final(self).spec_actions().len() ==> {
                    &&& (#[trigger] final(self).spec_actions()[j]).0 == old(self).spec_actions()[
                        j
                    ].0
                    &&& action_exec_rewritten(
                        old(self).spec_actions()[j].1@,
                        final(self).spec_actions()[j].1@,
                        appimage_path@,
                    )
                },
            old(self).wf() ==> final(self).wf(),
    {
        let n = self.actions.len();
        let mut i: usize = 0;
        while i < n
            invariant
                i <= n,
                n == self.actions@.len(),
                self.entries == old(self).entries,
                self.actions@.len() == old(self).actions@.len(),
                forall|j: int| i <= j < n ==> self.actions@[j] == old(self).actions@[j],
                forall|j: int|
                    0 <= j < i ==> {
                        &&& (#[trigger] self.actions@[j]).0 == old(self).actions@[j].0
                        &&& action_exec_rewritten(
                            old(self).actions@[j].1@,
                            self.actions@[j].1@,
                            appimage_path@,
                        )
                        &&& kv::kv_unique(old(self).actions@[j].1@) ==> kv::kv_unique(
                            self.actions@[j].1@,
                        )
                    },
            decreases n - i,
        {
            let ghost pre = self.actions@;
            let mut pair = self.actions.remove(i);
            let orig = match kv::kv_get(&pair.1, "Exec") {
                Some(v) => Some(v.clone()),
                None => None,
            };
            match orig {
                Some(o) => {
                    let newv = build_exec_value(appimage_path, o.as_str());
                    kv::kv_set(&mut pair.1, "Exec", newv);
                },
                None => {},
            }
            self.actions.insert(i, pair);
            proof {
                assert(self.actions@ =~= pre.update(i as int, self.actions@[i as int]));
            }
            i += 1;
        }
        proof {
            if old(self).wf() {
                assert forall|a: int, b: int|
                    0 <= a < b < self.actions@.len() implies self.actions@[a].0@
                    != self.actions@[b].0@ by {
                    assert(self.actions@[a].0 == old(self).actions@[a].0);
                    assert(self.actions@[b].0 == old(self).actions@[b].0);
                }
            }
        }
    }
}

/// One serialized `key=value` line.
pub open spec fn line_sp(k: Seq<char>, v: Seq<char>) -> Seq<char> {
    k + seq!['='] + v + seq!['\n']
}

/// The line a key contributes to the serialized form, empty when absent.
pub open spec fn key_line_sp(s: Seq<(String, String)>, k: Seq<char>) -> Seq<char> {
    match kv::kv_lookup(s, k) {
        Some(v) => line_sp(k, v@),
        None => Seq::empty(),
    }
}

/// The keys written first, in a fixed order.
pub open spec fn is_priority_key(k: Seq<char>) -> bool {
    ||| k == "Type"@
    ||| k == "Name"@
    ||| k == "GenericName"@
    ||| k == "Comment"@
    ||| k == "Icon"@
    ||| k == "Exec"@
    ||| k == "TryExec"@
    ||| k == "Terminal"@
    ||| k == "Categories"@
    ||| k == "MimeType"@
    ||| k == "StartupWMClass"@
    ||| k == "StartupNotify"@
    ||| k == "Actions"@
}

/// The priority keys' lines, in their fixed order.
pub open spec fn priority_block_sp(s: Seq<(String, String)>) -> Seq<char> {
    key_line_sp(s, "Type"@) + key_line_sp(s, "Name"@) + key_line_sp(s, "GenericName"@)
        + key_line_sp(s, "Comment"@) + key_line_sp(s, "Icon"@) + key_line_sp(s, "Exec"@)
        + key_line_sp(s, "TryExec"@) + key_line_sp(s, "Terminal"@) + key_line_sp(s, "Categories"@)
        + key_line_sp(s, "MimeType"@) + key_line_sp(s, "StartupWMClass"@) + key_line_sp(
        s,
        "StartupNotify"@,
    ) + key_line_sp(s, "Actions"@)
}

/// The lines of the first `n` stored pairs whose keys are not priority
/// keys, in storage order.
pub open spec fn rest_block_sp(s: Seq<(String, String)>, n: int) -> Seq<char>
    decreases n,
{
    if n <= 0 {
        Seq::empty()
    } else {
        rest_block_sp(s, n - 1) + (if !is_priority_key(s[n - 1].0@) {
            line_sp(s[n - 1].0@, s[n - 1].1@)
        } else {
            Seq::empty()
        })
    }
}

/// The lines of the first `n` stored pairs, in storage order.
pub open spec fn pairs_block_sp(s: Seq<(String, String)>, n: int) -> Seq<char>
    decreases n,
{
    if n <= 0 {
        Seq::empty()
    } else {
        pairs_block_sp(s, n - 1) + line_sp(s[n - 1].0@, s[n - 1].1@)
    }
}

/// A blank line and an action section's header.
pub open spec fn action_header_sp(name: Seq<char>) -> Seq<char> {
    seq!['\n'] + "[Desktop Action "@ + name + seq![']'] + seq!['\n']
}

/// The serialized action sections among the first `n`, in storage order.
pub open spec fn actions_block_sp(a: Seq<(String, Vec<(String, String)>)>, n: int) -> Seq<char>
    decreases n,
{
    if n <= 0 {
        Seq::empty()
    } else {
        actions_block_sp(a, n - 1) + action_header_sp(a[n - 1].0@) + pairs_block_sp(
            a[n - 1].1@,
            a[n - 1].1@.len() as int,
        )
    }
}

/// Append `s` to `out`.
fn push_all(out: &mut Vec<char>, s: &Vec<char>)
    ensures
        final(out)@ == old(out)@ + s@,
{
    let n = s.len();
    let mut i: usize = 0;
    proof {
        assert(out@ =~= old(out)@ + s@.subrange(0, 0));
    }
    while i < n
        invariant
            i <= n,
            n == s@.len(),
            out@ == old(out)@ + s@.subrange(0, i as int),
        decreases n - i,
    {
        out.push(s[i]);
        proof {
            assert(old(out)@ + s@.subrange(0, i + 1 as int) =~= (old(out)@ + s@.subrange(
                0,
                i as int,
            )).push(s@[i as int]));
        }
        i += 1;
    }
    proof {
        assert(old(out)@ + s@.subrange(0, n as int) =~= old(out)@ + s@);
    }
}

/// Append one `key=value` line.
fn push_line(out: &mut Vec<char>, k: &Vec<char>, v: &Vec<char>)
    ensures
        final(out)@ == old(out)@ + line_sp(k@, v@),
{
    push_all(out, k);
    out.push('=');
    push_all(out, v);
    out.push('\n');
    proof {
        assert(out@ =~= old(out)@ + line_sp(k@, v@));
    }
}

/// Append the line of `key`, when the table binds it.
fn push_key_line(out: &mut Vec<char>, entries: &Vec<(String, String)>, key: &str)
    ensures
        final(out)@ == old(out)@ + key_line_sp(entries@, key@),
{
    match kv::kv_find(entries, key) {
        Some(i) => {
            let p = &entries[i];
            let kc = text::to_chars(key);
            let vc = text::to_chars(p.1.as_str());
            push_line(out, &kc, &vc);
        },
        None => {},
    }
}

/// Whether `k` is one of the keys written first.
fn priority_key(k: &String) -> (r: bool)
    ensures
        r == is_priority_key(k@),
{
    text::string_eq(k, "Type") || text::string_eq(k, "Name") || text::string_eq(k, "GenericName")
        || text::string_eq(k, "Comment") || text::string_eq(k, "Icon") || text::string_eq(
        k,
        "Exec",
    ) || text::string_eq(k, "TryExec") || text::string_eq(k, "Terminal") || text::string_eq(
        k,
        "Categories",
    ) || text::string_eq(k, "MimeType") || text::string_eq(k, "StartupWMClass")
        || text::string_eq(k, "StartupNotify") || text::string_eq(k, "Actions")
}

impl DesktopEntry {
    /// The file's serialized form: the `[Desktop Entry]` header, the
    /// priority keys in their fixed order, the remaining keys in storage
    /// order, then each action section.
    pub closed spec fn rendered_sp(self) -> Seq<char> {
        "[Desktop Entry]\n"@ + priority_block_sp(self.entries@) + rest_block_sp(
            self.entries@,
            self.entries@.len() as int,
        ) + actions_block_sp(self.actions@, self.actions@.len() as int)
    }

    /// Serialize the entry. The caller owns writing the result to a file.
    pub fn write(&self) -> (r: String)
        ensures
            r@ == self.rendered_sp(),
    {
        let mut out = text::to_chars("[Desktop Entry]\n");
        let ghost header = "[Desktop Entry]\n"@;
        push_key_line(&mut out, &self.entries, "Type");
        push_key_line(&mut out, &self.entries, "Name");
        push_key_line(&mut out, &self.entries, "GenericName");
        push_key_line(&mut out, &self.entries, "Comment");
        push_key_line(&mut out, &self.entries, "Icon");
        push_key_line(&mut out, &self.entries, "Exec");
        push_key_line(&mut out, &self.entries, "TryExec");
        push_key_line(&mut out, &self.entries, "Terminal");
        push_key_line(&mut out, &self.entries, "Categories");
        push_key_line(&mut out, &self.entries, "MimeType");
        push_key_line(&mut out, &self.entries, "StartupWMClass");
        push_key_line(&mut out, &self.entries, "StartupNotify");
        push_key_line(&mut out, &self.entries, "Actions");
        proof {
            assert(out@ =~= header + priority_block_sp(self.entries@));
        }
        let ghost upto_prio = out@;
        let n = self.entries.len();
        let mut j: usize = 0;
        proof {
            assert(out@ =~= upto_prio + rest_block_sp(self.entries@, 0));
        }
        while j < n
            invariant
                j <= n,
                n == self.entries@.len(),
                out@ == upto_prio + rest_block_sp(self.entries@, j as int),
            decreases n - j,
        {
            let p = &self.entries[j];
            if !priority_key(&p.0) {
                let kc = text::to_chars(p.0.as_str());
                let vc = text::to_chars(p.1.as_str());
                push_line(&mut out, &kc, &vc);
            }
            proof {
                assert(out@ =~= upto_prio + rest_block_sp(self.entries@, j + 1 as int));
            }
            j += 1;
        }
        let ghost upto_rest = out@;
        let m = self.actions.len();
        let mut a: usize = 0;
        proof {
            assert(out@ =~= upto_rest + actions_block_sp(self.actions@, 0));
        }
        while a < m
            invariant
                a <= m,
                m == self.actions@.len(),
                out@ == upto_rest + actions_block_sp(self.actions@, a as int),
            decreases m - a,
        {
            let act = &self.actions[a];
            out.push('\n');
            let hc = text::to_chars("[Desktop Action ");
            push_all(&mut out, &hc);
            let nc = text::to_chars(act.0.as_str());
            push_all(&mut out, &nc);
            out.push(']');
            out.push('\n');
            proof {
                assert(out@ =~= upto_rest + actions_block_sp(self.actions@, a as int)
                    + action_header_sp(self.actions@[a as int].0@));
            }
            let ghost upto_header = out@;
            let pn = act.1.len();
            let mut q: usize = 0;
            proof {
                assert(out@ =~= upto_header + pairs_block_sp(self.actions@[a as int].1@, 0));
            }
            while q < pn
                invariant
                    q <= pn,
                    a < self.actions@.len(),
                    pn == self.actions@[a as int].1@.len(),
                    act == &self.actions[a as int],
                    out@ == upto_header + pairs_block_sp(self.actions@[a as int].1@, q as int),
                decreases pn - q,
            {
                let pr = &act.1[q];
                let kc = text::to_chars(pr.0.as_str());
                let vc = text::to_chars(pr.1.as_str());
                push_line(&mut out, &kc, &vc);
                proof {
                    assert(out@ =~= upto_header + pairs_block_sp(
                        self.actions@[a as int].1@,
                        q + 1 as int,
                    ));
                }
                q += 1;
            }
            proof {
                assert(out@ =~= upto_rest + actions_block_sp(self.actions@, a + 1 as int));
            }
            a += 1;
        }
        proof {
            assert(out@ =~= self.rendered_sp());
        }
        text::from_chars(&out)
    }
}

/// Parsing state: the section the cursor is in, the `[Desktop Entry]`
/// table so far, and the action tables so far.
pub open spec fn kv_as_map(s: Seq<(String, String)>) -> Map<Seq<char>, Seq<char>> {
    Map::new(
        |k: Seq<char>| kv::kv_lookup(s, k) is Some,
        |k: Seq<char>| kv::kv_lookup(s, k)->Some_0@,
    )
}

pub open spec fn actions_as_map(a: Seq<(String, Vec<(String, String)>)>) -> Map<
    Seq<char>,
    Map<Seq<char>, Seq<char>>,
> {
    Map::new(
        |nm: Seq<char>| kv::kv_lookup(a, nm) is Some,
        |nm: Seq<char>| kv_as_map(kv::kv_lookup(a, nm)->Some_0@),
    )
}

/// How one line advances the parse: blank lines and `#` comments are
/// skipped, `[...]` switches the section, and a `key=value` line lands in
/// the table its section names — `[Desktop Entry]`, a `[Desktop Action x]`
/// table, or nowhere.
pub open spec fn apply_line(
    st: (Option<Seq<char>>, Map<Seq<char>, Seq<char>>, Map<Seq<char>, Map<Seq<char>, Seq<char>>>),
    line: Seq<char>,
) -> (Option<Seq<char>>, Map<Seq<char>, Seq<char>>, Map<Seq<char>, Map<Seq<char>, Seq<char>>>) {
    let t = text::trimmed(line);
    if t.len() == 0 || t[0] == '#' {
        st
    } else if t[0] == '[' && t.last() == ']' {
        (Some(t.subrange(1, t.len() - 1)), st.1, st.2)
    } else if text::first_index_of(t, '=') < t.len() {
        let e = text::first_index_of(t, '=') as int;
        let k = text::trimmed(t.subrange(0, e));
        let v = text::trimmed(t.subrange(e + 1, t.len() as int));
        match st.0 {
            Some(sec) => if sec == "Desktop Entry"@ {
                (st.0, st.1.insert(k, v), st.2)
            } else if paths::starts_with_sp(sec, "Desktop Action "@) {
                let nm = sec.subrange("Desktop Action "@.len() as int, sec.len() as int);
                let inner = if st.2.contains_key(nm) {
                    st.2[nm]
                } else {
                    Map::empty()
                };
                (st.0, st.1, st.2.insert(nm, inner.insert(k, v)))
            } else {
                st
            },
            None => st,
        }
    } else {
        st
    }
}

/// The parse after the first `n` lines.
pub open spec fn parse_lines_sp(lines: Seq<Seq<char>>, n: int) -> (
    Option<Seq<char>>,
    Map<Seq<char>, Seq<char>>,
    Map<Seq<char>, Map<Seq<char>, Seq<char>>>,
)
    decreases n,
{
    if n <= 0 {
        (None, Map::empty(), Map::empty())
    } else {
        apply_line(parse_lines_sp(lines, n - 1), lines[n - 1])
    }
}

/// The two tables a document parses to.
pub open spec fn parse_sp(content: Seq<char>) -> (
    Map<Seq<char>, Seq<char>>,
    Map<Seq<char>, Map<Seq<char>, Seq<char>>>,
) {
    let lines = text::split_on(content, '\n');
    let st = parse_lines_sp(lines, lines.len() as int);
    (st.1, st.2)
}

proof fn lemma_kv_as_map_set(
    pre: Seq<(String, String)>,
    post: Seq<(String, String)>,
    key: Seq<char>,
    val: String,
)
    requires
        kv::kv_lookup(post, key) == Some(val),
        forall|k2: Seq<char>| k2 != key ==> kv::kv_lookup(post, k2) == kv::kv_lookup(pre, k2),
    ensures
        kv_as_map(post) =~= kv_as_map(pre).insert(key, val@),
{
}

impl DesktopEntry {
    /// The `[Desktop Entry]` table, as a map.
    pub closed spec fn entries_map(self) -> Map<Seq<char>, Seq<char>> {
        kv_as_map(self.entries@)
    }

    /// The action tables, as a map of maps.
    pub closed spec fn actions_map(self) -> Map<Seq<char>, Map<Seq<char>, Seq<char>>> {
        actions_as_map(self.actions@)
    }
}

/// Advance the in-progress parse by one line.
fn process_line(
    entries: &mut Vec<(String, String)>,
    actions: &mut Vec<(String, Vec<(String, String)>)>,
    cur: &mut Option<String>,
    line: &Vec<char>,
)
    ensures
        ({
            let pre = (
                match *old(cur) {
                    Some(s) => Some(s@),
                    None => None,
                },
                kv_as_map(old(entries)@),
                actions_as_map(old(actions)@),
            );
            let post = apply_line(pre, line@);
            &&& match *final(cur) {
                Some(s) => post.0 == Some(s@),
                None => post.0 is None,
            }
            &&& kv_as_map(final(entries)@) =~= post.1
            &&& actions_as_map(final(actions)@) =~~= post.2
        }),
        kv::kv_unique(old(entries)@) ==> kv::kv_unique(final(entries)@),
        (kv::kv_unique(old(actions)@) && (forall|i: int|
            0 <= i < old(actions)@.len() ==> kv::kv_unique(#[trigger] old(actions)@[i].1@)))
            ==> (kv::kv_unique(final(actions)@) && (forall|i: int|
            0 <= i < final(actions)@.len() ==> kv::kv_unique(#[trigger] final(actions)@[i].1@))),
{
    let t = text::trim(line);
    if t.len() == 0 {
        return ;
    }
    if t[0] == '#' {
        return ;
    }
    if t[0] == '[' && t[t.len() - 1] == ']' {
        let name = text::subvec(&t, 1, t.len() - 1);
        *cur = Some(text::from_chars(&name));
        return ;
    }
    let eq = match text::find_char(&t, '=') {
        Some(e) => e,
        None => {
            return ;
        },
    };
    let kc = text::trim(&text::subvec(&t, 0, eq));
    let vc = text::trim(&text::subvec(&t, eq + 1, t.len()));
    let key = text::from_chars(&kc);
    let val = text::from_chars(&vc);
    let sec = match cur {
        Some(s) => s.clone(),
        None => {
            return ;
        },
    };
    if text::string_eq(&sec, "Desktop Entry") {
        let ghost pre_entries = entries@;
        kv::kv_set(entries, key.as_str(), val);
        proof {
            lemma_kv_as_map_set(pre_entries, entries@, kc@, val);
        }
        return ;
    }
    let sc = text::to_chars(sec.as_str());
    let prefix = text::to_chars("Desktop Action ");
    if paths::starts_with(&sc, &prefix) {
        let nm = text::subvec(&sc, prefix.len(), sc.len());
        let nm_str = text::from_chars(&nm);
        let ghost pre_actions = actions@;
        match kv::kv_find(actions, nm_str.as_str()) {
            Some(i) => {
                let mut pair = actions.remove(i);
                let ghost pre_inner = pair.1@;
                kv::kv_set(&mut pair.1, key.as_str(), val);
                actions.insert(i, pair);
                proof {
                    assert(actions@ =~= pre_actions.update(i as int, actions@[i as int]));
                    lemma_kv_as_map_set(pre_inner, actions@[i as int].1@, kc@, val);
                    assert forall|n2: Seq<char>| n2 != nm@ implies kv::kv_lookup(actions@, n2)
                        == kv::kv_lookup(pre_actions, n2) by {
                        kv::lemma_kv_update(pre_actions, i as int, actions@[i as int], n2);
                    }
                    kv::lemma_kv_update(pre_actions, i as int, actions@[i as int], nm@);
                    assert(actions_as_map(actions@) =~~= actions_as_map(pre_actions).insert(
                        nm@,
                        kv_as_map(pre_inner).insert(kc@, val@),
                    ));
                }
            },
            None => {
                let mut inner: Vec<(String, String)> = Vec::new();
                kv::kv_set(&mut inner, key.as_str(), val);
                proof {
                    kv::lemma_kv_lookup_none_all(actions@, nm@);
                    lemma_kv_as_map_set(Seq::empty(), inner@, kc@, val);
                    assert(kv_as_map(Seq::<(String, String)>::empty()) =~= Map::<
                        Seq<char>,
                        Seq<char>,
                    >::empty());
                }
                actions.push((nm_str, inner));
                proof {
                    assert forall|n2: Seq<char>| n2 != nm@ implies kv::kv_lookup(actions@, n2)
                        == kv::kv_lookup(pre_actions, n2) by {
                        kv::lemma_kv_push(pre_actions, actions@[pre_actions.len() as int], n2);
                    }
                    kv::lemma_kv_push(pre_actions, actions@[pre_actions.len() as int], nm@);
                    assert forall|a2: int, b2: int|
                        0 <= a2 < b2 < actions@.len() && kv::kv_unique(pre_actions) implies
                        actions@[a2].0@ != actions@[b2].0@ by {
                        if b2 < pre_actions.len() {
                        } else {
                            assert(actions@[b2].0@ == nm@);
                            assert(pre_actions[a2].0@ != nm@);
                        }
                    }
                    assert(actions_as_map(actions@) =~~= actions_as_map(pre_actions).insert(
                        nm@,
                        kv_as_map(Seq::<(String, String)>::empty()).insert(kc@, val@),
                    ));
                }
            },
        }
    }
}

impl DesktopEntry {
    /// Parse a document's contents into the entry and action tables.
    /// Succeeds exactly when both mandatory fields, `Type` and `Name`, are
    /// present after parsing; the typed failure names the missing one,
    /// `Type` first.
    pub fn parse(content: &str) -> (r: Result<DesktopEntry, DesktopError>)
        ensures
            ({
                let p = parse_sp(content@);
                match r {
                    Ok(entry) => {
                        &&& entry.wf()
                        &&& entry.entries_map() =~= p.0
                        &&& entry.actions_map() =~~= p.1
                        &&& p.0.contains_key("Type"@) && p.0.contains_key("Name"@)
                    },
                    Err(e) => {
                        &&& !(p.0.contains_key("Type"@) && p.0.contains_key("Name"@))
                        &&& e matches DesktopError::MissingField(f)
                        &&& f@ == if p.0.contains_key("Type"@) {
                            "Name"@
                        } else {
                            "Type"@
                        }
                    },
                }
            }),
    {
        let chars = text::to_chars(content);
        let lines = text::split_on_char(&chars, '\n');
        let ghost lv = lines@.map_values(|x: Vec<char>| x@);
        let mut entries: Vec<(String, String)> = Vec::new();
        let mut actions: Vec<(String, Vec<(String, String)>)> = Vec::new();
        let mut cur: Option<String> = None;
        let n = lines.len();
        let mut j: usize = 0;
        proof {
            assert(kv_as_map(entries@) =~= parse_lines_sp(lv, 0).1);
            assert(actions_as_map(actions@) =~~= parse_lines_sp(lv, 0).2);
        }
        while j < n
            invariant
                j <= n,
                n == lines@.len(),
                lv == lines@.map_values(|x: Vec<char>| x@),
                lv == text::split_on(content@, '\n'),
                match cur {
                    Some(s) => parse_lines_sp(lv, j as int).0 == Some(s@),
                    None => parse_lines_sp(lv, j as int).0 is None,
                },
                kv_as_map(entries@) =~= parse_lines_sp(lv, j as int).1,
                actions_as_map(actions@) =~~= parse_lines_sp(lv, j as int).2,
                kv::kv_unique(entries@),
                kv::kv_unique(actions@),
                forall|i: int| 0 <= i < actions@.len() ==> kv::kv_unique(#[trigger] actions@[i].1@),
            decreases n - j,
        {
            proof {
                assert(lv[j as int] == lines@[j as int]@);
            }
            process_line(&mut entries, &mut actions, &mut cur, &lines[j]);
            j += 1;
        }
        let entry = DesktopEntry { entries, actions };
        if kv::kv_find(&entry.entries, "Type").is_none() {
            return Err(DesktopError::MissingField(String::from_str("Type")));
        }
        if kv::kv_find(&entry.entries, "Name").is_none() {
            return Err(DesktopError::MissingField(String::from_str("Name")));
        }
        Ok(entry)
    }
}

/// The installed file name for an integrated bundle's menu entry.
pub fn generate_desktop_filename(identifier: &str) -> (r: String)
    ensures
        r@ == "appimage-"@ + identifier@ + ".desktop"@,
{
    let v = text::to_chars("appimage-");
    let idc = text::to_chars(identifier);
    let sufc = text::to_chars(".desktop");
    let v = text::concat_chars(&v, &idc);
    let v = text::concat_chars(&v, &sufc);
    text::from_chars(&v)
}

/// The icon value recorded in an installed entry: the bare theme name (the
/// file's stem) for icons under the standard theme roots, the full path
/// otherwise.
pub open spec fn icon_value_sp(icon: Seq<char>) -> Seq<char> {
    if paths::starts_with_sp(icon, "/usr/share/icons"@) || paths::contains_sp(
        icon,
        "/.local/share/icons/"@,
    ) {
        paths::file_stem_sp(icon)
    } else {
        icon
    }
}

/// The `Icon` value an installed entry gets for an installed icon file.
pub fn icon_entry_value(icon: &String) -> (r: String)
    ensures
        r@ == icon_value_sp(icon@),
{
    let ic = text::to_chars(icon.as_str());
    let usr = text::to_chars("/usr/share/icons");
    let loc = text::to_chars("/.local/share/icons/");
    if paths::starts_with(&ic, &usr) || paths::contains_seq(&ic, &loc) {
        let st = paths::file_stem(&ic);
        text::from_chars(&st)
    } else {
        icon.clone()
    }
}

/// Where the menu entry of the bundle named by `identifier` is installed.
pub fn desktop_install_path(desktop_dir: &String, identifier: &str) -> (r: String)
    ensures
        r@ == paths::joined_sp(desktop_dir@, "appimage-"@ + identifier@ + ".desktop"@),
{
    let name = generate_desktop_filename(identifier);
    let dc = text::to_chars(desktop_dir.as_str());
    let nc = text::to_chars(name.as_str());
    let j = paths::join_path(&dc, &nc);
    text::from_chars(&j)
}

/// Rework a freshly parsed menu entry for installation: launch commands
/// point at the bundle, the identifier is stamped, a window-class hint is
/// derived, and the icon is set when one was installed. Every other key
/// keeps its value.
pub fn prepare_desktop_entry(
    entry: &mut DesktopEntry,
    appimage_path: &str,
    icon: Option<&String>,
    identifier: &str,
)
    ensures
        ({
            let orig_exec = match old(entry).entry_of("Exec"@) {
                Some(v) => v@,
                None => Seq::<char>::empty(),
            };
            final(entry).entry_of("Exec"@) matches Some(v) && v@ == rewritten_exec(
                appimage_path@,
                orig_exec,
            )
        }),
        final(entry).entry_of("TryExec"@) matches Some(v) && v@ == appimage_path@,
        final(entry).entry_of("X-AppImage-Identifier"@) matches Some(v) && v@ == identifier@,
        match icon {
            Some(ic) => final(entry).entry_of("Icon"@) matches Some(v) && v@ == icon_value_sp(
                ic@,
            ),
            None => final(entry).entry_of("Icon"@) == old(entry).entry_of("Icon"@),
        },
        old(entry).entry_of("StartupWMClass"@) is Some ==> final(entry).entry_of(
            "StartupWMClass"@,
        ) == old(entry).entry_of("StartupWMClass"@),
        old(entry).entry_of("StartupWMClass"@) is None ==> match old(entry).entry_of("Name"@) {
            Some(nm) => if wm_class_sp(nm@).len() == 0 {
                final(entry).entry_of("StartupWMClass"@) is None
            } else {
                final(entry).entry_of("StartupWMClass"@) matches Some(v) && v@ == wm_class_sp(nm@)
            },
            None => final(entry).entry_of("StartupWMClass"@) is None,
        },
        forall|k: Seq<char>|
            (k != "Exec"@ && k != "TryExec"@ && k != "X-AppImage-Identifier"@ && k
                != "StartupWMClass"@ && k != "Icon"@) ==> final(entry).entry_of(k) == old(
                entry,
            ).entry_of(k),
        final(entry).spec_actions().len() == old(entry).spec_actions().len(),
        forall|j: int|
            0 <= j < final(entry).spec_actions().len() ==> {
                &&& (#[trigger] final(entry).spec_actions()[j]).0 == old(entry).spec_actions()[
                    j
                ].0
                &&& action_exec_rewritten(
                    old(entry).spec_actions()[j].1@,
                    final(entry).spec_actions()[j].1@,
                    appimage_path@,
                )
            },
        old(entry).wf() ==> final(entry).wf(),
{
    proof {
        reveal_strlit("Exec");
        reveal_strlit("TryExec");
        reveal_strlit("X-AppImage-Identifier");
        reveal_strlit("StartupWMClass");
        reveal_strlit("Icon");
        reveal_strlit("Name");
        // the five touched keys are pairwise distinct
        assert("Exec"@.len() == 4 && "Exec"@[0] == 'E');
        assert("Icon"@.len() == 4 && "Icon"@[0] == 'I');
        assert("Name"@.len() == 4 && "Name"@[0] == 'N');
        assert("TryExec"@.len() == 7);
        assert("X-AppImage-Identifier"@.len() == 21);
        assert("StartupWMClass"@.len() == 14);
    }
    entry.set_exec(appimage_path);
    entry.set_try_exec(appimage_path);
    entry.set_appimage_identifier(identifier);
    entry.ensure_startup_wm_class();
    entry.update_action_exec(appimage_path);
    match icon {
        Some(ic) => {
            let v = icon_entry_value(ic);
            entry.set_icon(v.as_str());
        },
        None => {},
    }
}

} // verus!
