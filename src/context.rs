//! Prompts for the chat assistant, built from the pattern catalog and a short
//! conversation history.
use vstd::prelude::*;
use vstd::string::*;
use crate::catalog::{Catalog, CatalogView, lookup, cleanable_patterns_view};
use crate::matcher::{extension_key, extension_key_of, file_name_of, path_file_name};
use crate::text::{decimal, decimal_string, has_infix, starts_with, str_contains, str_contains_char, str_starts_with};

verus! {

/// The opening of the assistant's briefing, before the pattern list.
pub const APP_INTRO: &'static str = "You are DevTidy's AI assistant. DevTidy is a development artifact cleaner that helps developers free up disk space by removing build artifacts, caches, and temporary files.\n\nDevTidy recognizes these cleanable patterns:\n";

/// The close of the assistant's briefing, after the pattern list.
pub const APP_OUTRO: &'static str = "\n\nWhen users ask about files/folders, check if they match these patterns to give informed deletion advice.";

/// The task of an explain prompt.
pub const EXPLAIN_TASK: &'static str = "\n\nExplain what this folder/file is used for and whether DevTidy can safely delete it. Be specific and reference the pattern information above if applicable. Keep response concise (1-2 sentences).";

/// The task of a suggest prompt.
pub const SUGGEST_TASK: &'static str = ")\n\nBased on DevTidy's patterns above, can this folder be safely deleted? Give a clear yes/no answer with brief reasoning.";

/// The task of a chat prompt.
pub const CHAT_TASK: &'static str = "\n\nAnswer as DevTidy's AI assistant. If the question is about files/folders, check if they match any cleanable patterns and advise accordingly. Be helpful and specific.";

/// How many exchanges the history keeps.
pub const HISTORY_LIMIT: usize = 5;

/// One line of the pattern list.
pub open spec fn pattern_line(p: (Seq<char>, Seq<char>)) -> Seq<char> {
    "  - "@ + p.0 + ": "@ + p.1
}

/// The pattern list: one line per catalog entry, in catalog order.
pub open spec fn pattern_lines(cat: CatalogView) -> Seq<char>
    decreases cat.len(),
{
    if cat.len() == 0 {
        Seq::empty()
    } else if cat.len() == 1 {
        pattern_line(cat[0])
    } else {
        pattern_lines(cat.drop_last()) + "\n"@ + pattern_line(cat.last())
    }
}

/// The assistant's briefing on the application and its patterns.
pub open spec fn app_context_text(cat: CatalogView) -> Seq<char> {
    APP_INTRO@ + pattern_lines(cat) + APP_OUTRO@
}

/// `s` without its `*` characters.
pub open spec fn remove_stars(s: Seq<char>) -> Seq<char>
    decreases s.len(),
{
    if s.len() == 0 {
        s
    } else if s.last() == '*' {
        remove_stars(s.drop_last())
    } else {
        remove_stars(s.drop_last()).push(s.last())
    }
}

/// The first glob entry at or after `i` whose key, stars removed, begins or occurs in `name`.
pub open spec fn wildcard_from(cat: CatalogView, name: Seq<char>, i: int) -> Option<int>
    decreases cat.len() - i,
{
    if i < 0 || i >= cat.len() {
        None
    } else if cat[i].0.contains('*') && (starts_with(name, remove_stars(cat[i].0)) || has_infix(
        name,
        remove_stars(cat[i].0),
    )) {
        Some(i)
    } else {
        wildcard_from(cat, name, i + 1)
    }
}

/// What the catalog says of a name, for the assistant: an exact entry, else a glob entry
/// whose fixed part the name holds, else an extension entry, else that nothing matches.
pub open spec fn pattern_info(cat: CatalogView, name: Seq<char>) -> Seq<char> {
    match lookup(cat, name) {
        Some(d) => "PATTERN MATCH: '"@ + name + "' matches DevTidy pattern '"@ + name + "' - "@ + d
            + ". This CAN be safely deleted."@,
        None => match wildcard_from(cat, name, 0) {
            Some(i) => "PATTERN MATCH: '"@ + name + "' matches DevTidy wildcard pattern '"@ + cat[i].0
                + "' - "@ + cat[i].1 + ". This CAN be safely deleted."@,
            None => if name.contains('.') && lookup(cat, extension_key(name)) is Some {
                "PATTERN MATCH: '"@ + name + "' matches DevTidy extension pattern '"@ + extension_key(name)
                    + "' - "@ + lookup(cat, extension_key(name))->0 + ". This CAN be safely deleted."@
            } else {
                "NO PATTERN MATCH: '"@ + name
                    + "' does not match any DevTidy cleanable patterns. This should NOT be deleted as it's likely important project files."@
            },
        },
    }
}

/// One remembered exchange, numbered from 1.
pub open spec fn exchange_text(n: nat, e: (Seq<char>, Seq<char>)) -> Seq<char> {
    "Previous exchange "@ + decimal(n) + ":\nUser: "@ + e.0 + "\nAI: "@ + e.1
}

/// The remembered exchanges, numbered and separated by blank lines.
pub open spec fn exchanges_text(h: Seq<(Seq<char>, Seq<char>)>) -> Seq<char>
    decreases h.len(),
{
    if h.len() == 0 {
        Seq::empty()
    } else if h.len() == 1 {
        exchange_text(1, h[0])
    } else {
        exchanges_text(h.drop_last()) + "\n\n"@ + exchange_text(h.len(), h.last())
    }
}

/// The conversation part of a prompt.
pub open spec fn conversation_text(h: Seq<(Seq<char>, Seq<char>)>) -> Seq<char> {
    if h.len() == 0 {
        "No previous conversation."@
    } else {
        "Recent conversation:\n"@ + exchanges_text(h)
    }
}

/// The history after one more exchange: the oldest one goes once there are more than
/// the limit.
pub open spec fn history_after(h: Seq<(Seq<char>, Seq<char>)>, e: (Seq<char>, Seq<char>)) -> Seq<(Seq<char>, Seq<char>)> {
    let g = h.push(e);
    if g.len() > HISTORY_LIMIT {
        g.drop_first()
    } else {
        g
    }
}

/// The name shown for a folder: its last path component, or `unknown`.
pub open spec fn folder_display_name(path: Seq<char>) -> Seq<char> {
    match file_name_of(path) {
        Some(n) => n,
        None => "unknown"@,
    }
}

/// The name shown for a folder in prompts: its last path component, or `unknown`.
pub fn get_folder_display_name(path: &str) -> (r: String)
    ensures
        r@ == folder_display_name(path@),
{
    match path_file_name(path) {
        Some(n) => n,
        None => String::from_str("unknown"),
    }
}

/// The prompt builder of the chat assistant: the pattern catalog and the latest exchanges.
pub struct DevTidyContext {
    patterns: Catalog,
    conversation_history: Vec<(String, String)>,
}

impl DevTidyContext {
    /// The remembered exchanges, oldest first.
    pub closed spec fn history(&self) -> Seq<(Seq<char>, Seq<char>)> {
        self.conversation_history@.map_values(|e: (String, String)| (e.0@, e.1@))
    }

    /// The catalog the prompts describe.
    pub closed spec fn catalog(&self) -> CatalogView {
        self.patterns@
    }

    /// A context with the built-in catalog and no history.
    pub fn new() -> (r: DevTidyContext)
        ensures
            r.history() == Seq::<(Seq<char>, Seq<char>)>::empty(),
            r.catalog() == cleanable_patterns_view(),
    {
        let r = DevTidyContext { patterns: Catalog::cleanable_patterns(), conversation_history: Vec::new() };
        assert(r.history() =~= Seq::<(Seq<char>, Seq<char>)>::empty());
        r
    }

    /// Remembers one exchange; only the latest five are kept.
    pub fn add_exchange(&mut self, user_input: String, ai_response: String)
        ensures
            final(self).history() == history_after(old(self).history(), (user_input@, ai_response@)),
            final(self).catalog() == old(self).catalog(),
            old(self).history().len() <= HISTORY_LIMIT ==> final(self).history().len() <= HISTORY_LIMIT,
    {
        let ghost h = self.history();
        let ghost e = (user_input@, ai_response@);
        self.conversation_history.push((user_input, ai_response));
        assert(self.history() =~= h.push(e));
        if self.conversation_history.len() > HISTORY_LIMIT {
            self.conversation_history.remove(0);
            assert(self.history() =~= h.push(e).drop_first());
        }
    }

    /// The assistant's briefing: what the application does and every catalog pattern.
    pub fn get_app_context(&self) -> (r: String)
        ensures
            r@ == app_context_text(self.catalog()),
    {
        let ghost cat = self.catalog();
        let mut list = String::new();
        let mut i: usize = 0;
        while i < self.patterns.len()
            invariant
                i <= cat.len(),
                cat == self.patterns@,
                list@ == pattern_lines(cat.subrange(0, i as int)),
            decreases cat.len() - i,
        {
            assert(cat.subrange(0, i + 1).drop_last() =~= cat.subrange(0, i as int));
            if i > 0 {
                list.append("\n");
            }
            list.append("  - ");
            list.append(self.patterns.key(i));
            list.append(": ");
            list.append(self.patterns.description(i));
            i = i + 1;
        }
        assert(cat.subrange(0, cat.len() as int) =~= cat);
        let mut r = String::from_str(APP_INTRO);
        r.append(list.as_str());
        r.append(APP_OUTRO);
        r
    }

    /// What the catalog says of `name`, for the assistant.
    pub fn check_cleanable_pattern(&self, name: &str) -> (r: String)
        ensures
            r@ == pattern_info(self.catalog(), name@),
    {
        let ghost cat = self.catalog();
        match self.patterns.get(name) {
            Some(d) => {
                let mut r = String::from_str("PATTERN MATCH: '");
                r.append(name);
                r.append("' matches DevTidy pattern '");
                r.append(name);
                r.append("' - ");
                r.append(d);
                r.append(". This CAN be safely deleted.");
                return r;
            },
            None => {},
        }
        let mut i: usize = 0;
        while i < self.patterns.len()
            invariant
                i <= cat.len(),
                cat == self.patterns@,
                wildcard_from(cat, name@, i as int) == wildcard_from(cat, name@, 0),
                lookup(cat, name@) is None,
            decreases cat.len() - i,
        {
            let key = self.patterns.key(i);
            if str_contains_char(key, '*') {
                let base = without_stars(key);
                if str_starts_with(name, base.as_str()) || str_contains(name, base.as_str()) {
                    let mut r = String::from_str("PATTERN MATCH: '");
                    r.append(name);
                    r.append("' matches DevTidy wildcard pattern '");
                    r.append(key);
                    r.append("' - ");
                    r.append(self.patterns.description(i));
                    r.append(". This CAN be safely deleted.");
                    return r;
                }
            }
            i = i + 1;
        }
        match extension_key_of(name) {
            Some(ext) => match self.patterns.get(ext.as_str()) {
                Some(d) => {
                    let mut r = String::from_str("PATTERN MATCH: '");
                    r.append(name);
                    r.append("' matches DevTidy extension pattern '");
                    r.append(ext.as_str());
                    r.append("' - ");
                    r.append(d);
                    r.append(". This CAN be safely deleted.");
                    return r;
                },
                None => {},
            },
            None => {},
        }
        let mut r = String::from_str("NO PATTERN MATCH: '");
        r.append(name);
        r.append("' does not match any DevTidy cleanable patterns. This should NOT be deleted as it's likely important project files.");
        r
    }

    /// The conversation part of a prompt: the numbered exchanges, or a note that there
    /// are none.
    pub fn get_conversation_context(&self) -> (r: String)
        ensures
            r@ == conversation_text(self.history()),
    {
        let ghost h = self.history();
        if self.conversation_history.len() == 0 {
            return String::from_str("No previous conversation.");
        }
        let mut text = String::new();
        let mut i: usize = 0;
        while i < self.conversation_history.len()
            invariant
                i <= h.len(),
                h == self.history(),
                h.len() == self.conversation_history@.len(),
                text@ == exchanges_text(h.subrange(0, i as int)),
            decreases self.conversation_history.len() - i,
        {
            assert(h.subrange(0, i + 1).drop_last() =~= h.subrange(0, i as int));
            if i > 0 {
                text.append("\n\n");
            }
            text.append("Previous exchange ");
            let number = decimal_string(i + 1);
            text.append(number.as_str());
            text.append(":\nUser: ");
            text.append(self.conversation_history[i].0.as_str());
            text.append("\nAI: ");
            text.append(self.conversation_history[i].1.as_str());
            i = i + 1;
        }
        assert(h.subrange(0, h.len() as int) =~= h);
        let mut r = String::from_str("Recent conversation:\n");
        r.append(text.as_str());
        r
    }

    /// A prompt asking what `folder_name` is and whether it can be deleted.
    pub fn create_explain_prompt(&self, folder_name: &str) -> (r: String)
        ensures
            r@ == app_context_text(self.catalog()) + "\n\n"@ + pattern_info(self.catalog(), folder_name@)
                + "\n\nFolder/file to explain: '"@ + folder_name@ + "'\n\n"@ + conversation_text(self.history())
                + EXPLAIN_TASK@,
    {
        let app_context = self.get_app_context();
        let pattern_info = self.check_cleanable_pattern(folder_name);
        let conversation_context = self.get_conversation_context();
        let mut r = app_context;
        r.append("\n\n");
        r.append(pattern_info.as_str());
        r.append("\n\nFolder/file to explain: '");
        r.append(folder_name);
        r.append("'\n\n");
        r.append(conversation_context.as_str());
        r.append(EXPLAIN_TASK);
        r
    }

    /// A prompt asking whether `folder_name`, of the given size, can be deleted.
    pub fn create_suggest_prompt(&self, folder_name: &str, size: &str) -> (r: String)
        ensures
            r@ == app_context_text(self.catalog()) + "\n\n"@ + pattern_info(self.catalog(), folder_name@)
                + "\n\nFolder: '"@ + folder_name@ + "' (size: "@ + size@ + SUGGEST_TASK@,
    {
        let app_context = self.get_app_context();
        let pattern_info = self.check_cleanable_pattern(folder_name);
        let mut r = app_context;
        r.append("\n\n");
        r.append(pattern_info.as_str());
        r.append("\n\nFolder: '");
        r.append(folder_name);
        r.append("' (size: ");
        r.append(size);
        r.append(SUGGEST_TASK);
        r
    }

    /// A prompt for one chat question, with the conversation so far.
    pub fn create_chat_prompt(&self, user_input: &str) -> (r: String)
        ensures
            r@ == app_context_text(self.catalog()) + "\n\n"@ + conversation_text(self.history())
                + "\n\nUser question: "@ + user_input@ + CHAT_TASK@,
    {
        let app_context = self.get_app_context();
        let conversation_context = self.get_conversation_context();
        let mut r = app_context;
        r.append("\n\n");
        r.append(conversation_context.as_str());
        r.append("\n\nUser question: ");
        r.append(user_input);
        r.append(CHAT_TASK);
        r
    }
}

impl Default for DevTidyContext {
    /// The same as [`DevTidyContext::new`].
    fn default() -> (r: DevTidyContext)
        ensures
            r.history() == Seq::<(Seq<char>, Seq<char>)>::empty(),
            r.catalog() == cleanable_patterns_view(),
    {
        DevTidyContext::new()
    }
}

/// `s` without its `*` characters.
fn without_stars(s: &str) -> (r: String)
    ensures
        r@ == remove_stars(s@),
{
    let n = s.unicode_len();
    let mut r = String::new();
    let mut i: usize = 0;
    while i < n
        invariant
            i <= n,
            n == s@.len(),
            r@ == remove_stars(s@.subrange(0, i as int)),
        decreases n - i,
    {
        assert(s@.subrange(0, i + 1).drop_last() =~= s@.subrange(0, i as int));
        let c = s.get_char(i);
        if c != '*' {
            let one = s.substring_char(i, i + 1);
            r.append(one);
            assert(one@ =~= seq![c]);
        }
        i = i + 1;
    }
    assert(s@.subrange(0, n as int) =~= s@);
    r
}

} // verus!
