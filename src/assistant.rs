//! The chat assistant's decisions: which model suits the hardware, what each model is
//! allowed, when a request is retried, and how its streamed reply is cut into lines.
use vstd::prelude::*;
use vstd::string::*;
use crate::matcher::{trim_of, trim_text};
use crate::text::{
    chars_of, decimal, decimal_string, has_infix, lines_of, prefix_to, starts_with, str_contains, str_eq,
    str_starts_with, suffix_from, text_lines,
};

verus! {

/// Bytes in one GiB.
pub const GIB: u64 = 1073741824;

/// The graphics hardware found on the machine.
#[derive(Clone, Debug)]
pub enum GpuType {
    NvidiaGpu(String),
    AmdGpu(String),
    AppleSilicon,
    IntelGpu,
    /// No usable GPU: the model runs on the CPU.
    CpuOnly,
}

/// What the model choice depends on.
#[derive(Clone, Debug)]
pub struct HardwareInfo {
    pub gpu_type: GpuType,
    /// Estimated video memory, in GiB.
    pub gpu_memory_gb: u64,
    pub cpu_cores: usize,
    /// Installed memory, in bytes.
    pub total_memory: u64,
    /// Memory available now, in bytes.
    pub available_memory: u64,
}

/// One chunk of a streamed reply.
#[derive(Clone, Debug)]
pub struct OllamaResponse {
    pub response: String,
    pub done: bool,
}

/// One installed model.
#[derive(Clone, Debug)]
pub struct OllamaModel {
    pub name: String,
    pub size: u64,
}

/// The server's list of installed models.
#[derive(Clone, Debug)]
pub struct OllamaModelsResponse {
    pub models: Vec<OllamaModel>,
}

impl OllamaModelsResponse {
    /// The names of the installed models, in the server's order.
    pub fn model_names(&self) -> (r: Vec<String>)
        ensures
            r@.len() == self.models@.len(),
            forall|i: int| 0 <= i < r@.len() ==> #[trigger] r@[i]@ == self.models@[i].name@,
    {
        let mut r: Vec<String> = Vec::new();
        let mut i: usize = 0;
        while i < self.models.len()
            invariant
                i <= self.models@.len(),
                r@.len() == i,
                forall|j: int| 0 <= j < i ==> #[trigger] r@[j]@ == self.models@[j].name@,
            decreases self.models.len() - i,
        {
            r.push(self.models[i].name.clone());
            i = i + 1;
        }
        r
    }
}

/// The video memory, in GiB, assumed for an NVIDIA card of this name.
pub open spec fn nvidia_memory_gb(name: Seq<char>) -> u64 {
    if has_infix(name, "RTX 4090"@) { 24 }
    else if has_infix(name, "RTX 4080"@) { 16 }
    else if has_infix(name, "RTX 4070"@) { 12 }
    else if has_infix(name, "RTX 3090"@) { 24 }
    else if has_infix(name, "RTX 3080"@) { 10 }
    else if has_infix(name, "RTX 3070"@) { 8 }
    else if has_infix(name, "RTX 3060"@) { 12 }
    else if has_infix(name, "GTX 1660"@) { 6 }
    else if has_infix(name, "GTX 1050"@) { 4 }
    else { 8 }
}

/// The video memory, in GiB, assumed for a kind of GPU.
pub open spec fn gpu_memory_gb(gpu: GpuType) -> u64 {
    match gpu {
        GpuType::NvidiaGpu(name) => nvidia_memory_gb(name@),
        GpuType::AmdGpu(_) => 8,
        GpuType::AppleSilicon => 16,
        GpuType::IntelGpu => 2,
        GpuType::CpuOnly => 0,
    }
}

/// The model that suits the hardware: larger models with more video or unified memory,
/// small ones on the CPU.
pub open spec fn model_for(hw: HardwareInfo) -> Seq<char> {
    match hw.gpu_type {
        GpuType::NvidiaGpu(_) => if hw.gpu_memory_gb >= 16 {
            "mistral:instruct"@
        } else if hw.gpu_memory_gb >= 8 {
            "gemma:7b"@
        } else if hw.gpu_memory_gb >= 4 {
            "gemma:2b"@
        } else {
            "phi"@
        },
        GpuType::AmdGpu(_) => if hw.gpu_memory_gb >= 12 && hw.available_memory >= 8 * GIB {
            "gemma:7b"@
        } else if hw.gpu_memory_gb >= 6 {
            "gemma:2b"@
        } else {
            "phi"@
        },
        GpuType::AppleSilicon => if hw.total_memory >= 16 * GIB {
            "mistral:instruct"@
        } else if hw.total_memory >= 8 * GIB {
            "gemma:7b"@
        } else {
            "gemma:2b"@
        },
        _ => if hw.available_memory >= 8 * GIB && hw.cpu_cores >= 8 {
            "gemma:2b"@
        } else if hw.available_memory >= 4 * GIB {
            "phi"@
        } else {
            "tinyllama"@
        },
    }
}

/// The video memory, in GiB, assumed for a kind of GPU: by card name for NVIDIA, a
/// conservative figure for the others.
pub fn estimate_gpu_memory(gpu_type: &GpuType) -> (r: u64)
    ensures
        r == gpu_memory_gb(*gpu_type),
{
    match gpu_type {
        GpuType::NvidiaGpu(name) => {
            let n = name.as_str();
            if str_contains(n, "RTX 4090") { 24 }
            else if str_contains(n, "RTX 4080") { 16 }
            else if str_contains(n, "RTX 4070") { 12 }
            else if str_contains(n, "RTX 3090") { 24 }
            else if str_contains(n, "RTX 3080") { 10 }
            else if str_contains(n, "RTX 3070") { 8 }
            else if str_contains(n, "RTX 3060") { 12 }
            else if str_contains(n, "GTX 1660") { 6 }
            else if str_contains(n, "GTX 1050") { 4 }
            else { 8 }
        },
        GpuType::AmdGpu(_) => 8,
        GpuType::AppleSilicon => 16,
        GpuType::IntelGpu => 2,
        GpuType::CpuOnly => 0,
    }
}

/// The model to run on this hardware.
pub fn select_model(hw: &HardwareInfo) -> (r: &'static str)
    ensures
        r@ == model_for(*hw),
{
    match &hw.gpu_type {
        GpuType::NvidiaGpu(_) => {
            if hw.gpu_memory_gb >= 16 {
                "mistral:instruct"
            } else if hw.gpu_memory_gb >= 8 {
                "gemma:7b"
            } else if hw.gpu_memory_gb >= 4 {
                "gemma:2b"
            } else {
                "phi"
            }
        },
        GpuType::AmdGpu(_) => {
            if hw.gpu_memory_gb >= 12 && hw.available_memory >= 8 * GIB {
                "gemma:7b"
            } else if hw.gpu_memory_gb >= 6 {
                "gemma:2b"
            } else {
                "phi"
            }
        },
        GpuType::AppleSilicon => {
            if hw.total_memory >= 16 * GIB {
                "mistral:instruct"
            } else if hw.total_memory >= 8 * GIB {
                "gemma:7b"
            } else {
                "gemma:2b"
            }
        },
        _ => {
            if hw.available_memory >= 8 * GIB && hw.cpu_cores >= 8 {
                "gemma:2b"
            } else if hw.available_memory >= 4 * GIB {
                "phi"
            } else {
                "tinyllama"
            }
        },
    }
}

/// The most tokens a reply of this model may have.
pub open spec fn token_limit_of(model: Seq<char>) -> u32 {
    if model == "tinyllama"@ { 1000 }
    else if model == "phi"@ { 1500 }
    else if model == "gemma:2b"@ { 2000 }
    else if model == "gemma:7b"@ { 2500 }
    else if model == "mistral:instruct"@ { 3000 }
    else { 1500 }
}

/// How long, in seconds, a request to this model may take, loading included.
pub open spec fn timeout_of(model: Seq<char>) -> u64 {
    if model == "tinyllama"@ { 30 }
    else if model == "phi"@ { 45 }
    else if model == "gemma:2b"@ { 60 }
    else if model == "mistral:instruct"@ { 120 }
    else { 60 }
}

/// The most tokens a reply of `model` may have.
pub fn model_token_limit(model: &str) -> (r: u32)
    ensures
        r == token_limit_of(model@),
{
    if str_eq(model, "tinyllama") { 1000 }
    else if str_eq(model, "phi") { 1500 }
    else if str_eq(model, "gemma:2b") { 2000 }
    else if str_eq(model, "gemma:7b") { 2500 }
    else if str_eq(model, "mistral:instruct") { 3000 }
    else { 1500 }
}

/// How long, in seconds, a request to `model` may take.
pub fn model_timeout_secs(model: &str) -> (r: u64)
    ensures
        r == timeout_of(model@),
{
    if str_eq(model, "tinyllama") { 30 }
    else if str_eq(model, "phi") { 45 }
    else if str_eq(model, "gemma:2b") { 60 }
    else if str_eq(model, "mistral:instruct") { 120 }
    else { 60 }
}

/// The number of attempts a reply gets.
pub const MAX_ATTEMPTS: u32 = 2;

/// Whether a failed attempt is tried again: only a timeout, and only before the last
/// attempt.
pub fn should_retry(attempt: u32, error: &str) -> (r: bool)
    ensures
        r == (attempt < MAX_ATTEMPTS && has_infix(error@, "timeout"@)),
{
    attempt < MAX_ATTEMPTS && str_contains(error, "timeout")
}

/// Some installed model's name begins with `model`.
pub open spec fn model_installed(models: Seq<Seq<char>>, model: Seq<char>) -> bool {
    exists|i: int| 0 <= i < models.len() && starts_with(#[trigger] models[i], model)
}

/// Whether `model` is among the installed ones (a tagged name counts for its base name);
/// when it is not, it must be pulled.
pub fn model_available(models: &Vec<String>, model: &str) -> (r: bool)
    ensures
        r == model_installed(models@.map_values(|s: String| s@), model@),
{
    let ghost mv = models@.map_values(|s: String| s@);
    let mut i: usize = 0;
    while i < models.len()
        invariant
            i <= models@.len(),
            mv == models@.map_values(|s: String| s@),
            forall|j: int| 0 <= j < i ==> !starts_with(#[trigger] mv[j], model@),
        decreases models.len() - i,
    {
        if str_starts_with(models[i].as_str(), model) {
            assert(starts_with(mv[i as int], model@));
            return true;
        }
        i = i + 1;
    }
    false
}

/// Takes the first complete line off a stream buffer: its bytes without the newline, the
/// rest staying behind; nothing when the buffer holds no newline yet.
pub fn take_line(buffer: &mut Vec<u8>) -> (r: Option<Vec<u8>>)
    ensures
        match r {
            Some(line) => {
                &&& 0 <= line@.len() < old(buffer)@.len()
                &&& old(buffer)@[line@.len() as int] == 10u8
                &&& forall|j: int| 0 <= j < line@.len() ==> old(buffer)@[j] != 10u8
                &&& line@ == old(buffer)@.subrange(0, line@.len() as int)
                &&& final(buffer)@ == old(buffer)@.subrange(line@.len() as int + 1, old(buffer)@.len() as int)
            },
            None => {
                &&& forall|j: int| 0 <= j < old(buffer)@.len() ==> old(buffer)@[j] != 10u8
                &&& final(buffer)@ == old(buffer)@
            },
        },
{
    let mut i: usize = 0;
    while i < buffer.len()
        invariant
            i <= buffer@.len(),
            buffer@ == old(buffer)@,
            forall|j: int| 0 <= j < i ==> buffer@[j] != 10u8,
        decreases buffer.len() - i,
    {
        if buffer[i] == 10u8 {
            let mut line = buffer.split_off(i + 1);
            std::mem::swap(buffer, &mut line);
            line.truncate(i);
            return Some(line);
        }
        i = i + 1;
    }
    None
}

/// The mark shown before a finished spinner's message for an icon name.
pub open spec fn icon_symbol(icon: Seq<char>) -> Option<Seq<char>> {
    if icon == "success"@ { Some("\u{2714}"@) }
    else if icon == "error"@ { Some("\u{2716}"@) }
    else if icon == "warn"@ || icon == "warning"@ { Some("\u{26a0}"@) }
    else if icon == "info"@ { Some("\u{2139}"@) }
    else { None }
}

/// The terminal color code for a color name; `0` (plain) for any other name.
pub open spec fn color_code(color: Seq<char>) -> Seq<char> {
    if color == "black"@ { "30"@ }
    else if color == "red"@ { "31"@ }
    else if color == "green"@ { "32"@ }
    else if color == "yellow"@ { "33"@ }
    else if color == "blue"@ { "34"@ }
    else if color == "magenta"@ { "35"@ }
    else if color == "cyan"@ { "36"@ }
    else if color == "white"@ { "37"@ }
    else { "0"@ }
}

fn resolve_icon(icon: &str) -> (r: Option<&'static str>)
    ensures
        match r {
            Some(s) => icon_symbol(icon@) == Some(s@),
            None => icon_symbol(icon@) is None,
        },
{
    if str_eq(icon, "success") { Some("\u{2714}") }
    else if str_eq(icon, "error") { Some("\u{2716}") }
    else if str_eq(icon, "warn") || str_eq(icon, "warning") { Some("\u{26a0}") }
    else if str_eq(icon, "info") { Some("\u{2139}") }
    else { None }
}

fn resolve_color(color: &str) -> (r: &'static str)
    ensures
        r@ == color_code(color@),
{
    if str_eq(color, "black") { "30" }
    else if str_eq(color, "red") { "31" }
    else if str_eq(color, "green") { "32" }
    else if str_eq(color, "yellow") { "33" }
    else if str_eq(color, "blue") { "34" }
    else if str_eq(color, "magenta") { "35" }
    else if str_eq(color, "cyan") { "36" }
    else if str_eq(color, "white") { "37" }
    else { "0" }
}

/// A finished spinner's message: the message after its icon's mark, if the icon is
/// known, all in the named terminal color, if one is given.
pub open spec fn spinner_text(msg: Seq<char>, icon: Option<Seq<char>>, color: Option<Seq<char>>) -> Seq<char> {
    let marked = match icon {
        Some(i) => match icon_symbol(i) {
            Some(s) => s + " "@ + msg,
            None => msg,
        },
        None => msg,
    };
    match color {
        Some(c) => "\u{1b}["@ + color_code(c) + "m"@ + marked + "\u{1b}[0m"@,
        None => marked,
    }
}

/// The message a finished spinner shows.
pub fn spinner_message(final_msg: &str, icon: Option<&str>, color: Option<&str>) -> (r: String)
    ensures
        r@ == spinner_text(
            final_msg@,
            match icon {
                Some(i) => Some(i@),
                None => None,
            },
            match color {
                Some(c) => Some(c@),
                None => None,
            },
        ),
{
    let mut msg = String::new();
    match icon {
        Some(i) => match resolve_icon(i) {
            Some(symbol) => {
                msg.append(symbol);
                msg.append(" ");
            },
            None => {},
        },
        None => {},
    }
    msg.append(final_msg);
    match color {
        Some(c) => {
            let mut colored = String::from_str("\u{1b}[");
            colored.append(resolve_color(c));
            colored.append("m");
            colored.append(msg.as_str());
            colored.append("\u{1b}[0m");
            colored
        },
        None => msg,
    }
}

/// The GPU that `nvidia-smi --query-gpu=name` reported, if it named one.
pub open spec fn nvidia_gpu_of(output: Seq<char>) -> Option<Seq<char>> {
    if trim_of(output).len() > 0 { Some(trim_of(output)) } else { None }
}

/// The GPU named by the output of `nvidia-smi --query-gpu=name`, if any.
pub fn gpu_from_nvidia_output(output: &str) -> (r: Option<GpuType>)
    ensures
        match r {
            Some(GpuType::NvidiaGpu(name)) => nvidia_gpu_of(output@) == Some(name@),
            Some(_) => false,
            None => nvidia_gpu_of(output@) is None,
        },
{
    let name = trim_text(output);
    if name.as_str().unicode_len() > 0 {
        Some(GpuType::NvidiaGpu(name))
    } else {
        None
    }
}

/// The text after the first `:` of a line, up to the next `:`.
pub open spec fn second_field(line: Seq<char>) -> Seq<char> {
    let start = if first_colon(line) < line.len() { first_colon(line) + 1 } else { line.len() as int };
    let rest = line.subrange(start, line.len() as int);
    if rest.contains(':') {
        rest.subrange(0, first_colon(rest))
    } else {
        rest
    }
}

/// The position of the first `:` of `s` (its length when there is none).
pub open spec fn first_colon(s: Seq<char>) -> int
    decreases s.len(),
{
    if s.len() == 0 {
        0
    } else if s[0] == ':' {
        0
    } else {
        1 + first_colon(s.drop_first())
    }
}

proof fn lemma_first_colon(s: Seq<char>)
    ensures
        0 <= first_colon(s) <= s.len(),
        first_colon(s) < s.len() ==> s[first_colon(s)] == ':',
        forall|j: int| 0 <= j < first_colon(s) ==> s[j] != ':',
        s.contains(':') <==> first_colon(s) < s.len(),
    decreases s.len(),
{
    if s.len() > 0 && s[0] != ':' {
        lemma_first_colon(s.drop_first());
        assert forall|j: int| 1 <= j < first_colon(s) implies s[j] != ':' by {
            assert(s[j] == s.drop_first()[j - 1]);
        }
        if s.contains(':') {
            let k = choose|k: int| 0 <= k < s.len() && s[k] == ':';
            assert(s.drop_first()[k - 1] == ':');
        }
        if first_colon(s) < s.len() {
            assert(s[first_colon(s)] == s.drop_first()[first_colon(s) - 1]);
        }
    }
}

fn first_colon_exec(s: &Vec<char>) -> (r: usize)
    ensures
        r == first_colon(s@),
{
    proof {
        lemma_first_colon(s@);
    }
    let mut i: usize = 0;
    while i < s.len()
        invariant
            i <= s@.len(),
            forall|j: int| 0 <= j < i ==> s@[j] != ':',
            0 <= first_colon(s@) <= s@.len(),
            first_colon(s@) < s@.len() ==> s@[first_colon(s@)] == ':',
            forall|j: int| 0 <= j < first_colon(s@) ==> s@[j] != ':',
        decreases s.len() - i,
    {
        if s[i] == ':' {
            return i;
        }
        i = i + 1;
    }
    i
}

/// Whether a line of `rocm-smi --showproductname` names the card.
pub open spec fn names_amd_card(line: Seq<char>) -> bool {
    has_infix(line, "Card series:"@) || has_infix(line, "Card model:"@)
}

/// The first line at or after `i` that names the card.
pub open spec fn amd_card_line_from(lines: Seq<Seq<char>>, i: int) -> Option<Seq<char>>
    decreases lines.len() - i,
{
    if i < 0 || i >= lines.len() {
        None
    } else if names_amd_card(lines[i]) {
        Some(lines[i])
    } else {
        amd_card_line_from(lines, i + 1)
    }
}

/// The card that `rocm-smi --showproductname` reported, if any.
pub open spec fn amd_gpu_of(output: Seq<char>) -> Option<Seq<char>> {
    match amd_card_line_from(lines_of(output), 0) {
        Some(line) => Some(trim_of(second_field(line))),
        None => None,
    }
}

/// The GPU named by the output of `rocm-smi --showproductname`: the value of its first
/// card series or card model line.
pub fn gpu_from_rocm_output(output: &str) -> (r: Option<GpuType>)
    ensures
        match r {
            Some(GpuType::AmdGpu(name)) => amd_gpu_of(output@) == Some(name@),
            Some(_) => false,
            None => amd_gpu_of(output@) is None,
        },
{
    let lines = text_lines(output);
    let ghost lv = lines@.map_values(|l: String| l@);
    let mut i: usize = 0;
    while i < lines.len()
        invariant
            i <= lines@.len(),
            lv == lines@.map_values(|l: String| l@),
            lv == lines_of(output@),
            amd_card_line_from(lv, i as int) == amd_card_line_from(lv, 0),
        decreases lines.len() - i,
    {
        let line = lines[i].as_str();
        if str_contains(line, "Card series:") || str_contains(line, "Card model:") {
            let chars = chars_of(line);
            let c = first_colon_exec(&chars);
            proof {
                lemma_first_colon(line@);
            }
            let start = if c < chars.len() { c + 1 } else { chars.len() };
            let rest = suffix_from(line, start);
            let rest_chars = chars_of(rest.as_str());
            let d = first_colon_exec(&rest_chars);
            proof {
                lemma_first_colon(rest@);
            }
            let field = if d < rest_chars.len() {
                prefix_to(rest.as_str(), d)
            } else {
                rest
            };
            let name = trim_text(field.as_str());
            return Some(GpuType::AmdGpu(name));
        }
        i = i + 1;
    }
    None
}

/// Whether `lspci -v` shows Intel graphics.
pub fn lspci_shows_intel_graphics(output: &str) -> (r: bool)
    ensures
        r == (has_infix(output@, "Intel"@) && has_infix(output@, "VGA"@)),
{
    str_contains(output, "Intel") && str_contains(output, "VGA")
}

/// Whether `system_profiler SPHardwareDataType` shows an Apple chip.
pub fn profiler_shows_apple_silicon(output: &str) -> (r: bool)
    ensures
        r == (has_infix(output@, "Apple M"@) || has_infix(output@, "Apple Silicon"@)),
{
    str_contains(output, "Apple M") || str_contains(output, "Apple Silicon")
}

/// The installed models, separated by `, `.
pub open spec fn joined_names(models: Seq<Seq<char>>) -> Seq<char>
    decreases models.len(),
{
    if models.len() == 0 {
        Seq::empty()
    } else if models.len() == 1 {
        models[0]
    } else {
        joined_names(models.drop_last()) + ", "@ + models.last()
    }
}

/// What the diagnosis says of a running server and its installed models.
pub open spec fn health_text(models: Seq<Seq<char>>) -> Seq<char> {
    if models.len() == 0 {
        "Ollama is running but no models are installed."@
    } else {
        "Ollama is running with "@ + decimal(models.len()) + " models: "@ + joined_names(models)
    }
}

/// The diagnosis of a running server from the models it lists.
pub fn health_report(models: &Vec<String>) -> (r: String)
    ensures
        r@ == health_text(models@.map_values(|m: String| m@)),
{
    let ghost mv = models@.map_values(|m: String| m@);
    if models.len() == 0 {
        return String::from_str("Ollama is running but no models are installed.");
    }
    let mut names = String::new();
    let mut i: usize = 0;
    while i < models.len()
        invariant
            i <= models@.len(),
            mv == models@.map_values(|m: String| m@),
            names@ == joined_names(mv.subrange(0, i as int)),
        decreases models.len() - i,
    {
        assert(mv.subrange(0, i + 1).drop_last() =~= mv.subrange(0, i as int));
        if i > 0 {
            names.append(", ");
        }
        names.append(models[i].as_str());
        i = i + 1;
    }
    assert(mv.subrange(0, models@.len() as int) =~= mv);
    let mut r = String::from_str("Ollama is running with ");
    let count = decimal_string(models.len());
    r.append(count.as_str());
    r.append(" models: ");
    r.append(names.as_str());
    r
}

/// A character with ASCII capitals lowered.
pub open spec fn ascii_lower(c: char) -> char {
    if 'A' <= c && c <= 'Z' { ((c as u8) + 32) as u8 as char } else { c }
}

/// Two texts equal but for the case of ASCII letters.
pub open spec fn eq_ignore_ascii_case(a: Seq<char>, b: Seq<char>) -> bool {
    a.len() == b.len() && forall|i: int| 0 <= i < a.len() ==> ascii_lower(#[trigger] a[i]) == ascii_lower(b[i])
}

fn lower_char(c: char) -> (r: char)
    ensures
        r == ascii_lower(c),
{
    if 'A' <= c && c <= 'Z' {
        ((c as u8) + 32) as char
    } else {
        c
    }
}

fn eq_ignore_case(a: &str, b: &str) -> (r: bool)
    ensures
        r == eq_ignore_ascii_case(a@, b@),
{
    let av = chars_of(a);
    let bv = chars_of(b);
    if av.len() != bv.len() {
        return false;
    }
    let mut i: usize = 0;
    while i < av.len()
        invariant
            av@ == a@,
            bv@ == b@,
            av@.len() == bv@.len(),
            i <= av@.len(),
            forall|j: int| 0 <= j < i ==> ascii_lower(#[trigger] a@[j]) == ascii_lower(b@[j]),
        decreases av.len() - i,
    {
        if lower_char(av[i]) != lower_char(bv[i]) {
            return false;
        }
        i = i + 1;
    }
    true
}

/// Whether a chat input ends the session: `exit` or `quit`, in any case.
pub fn is_exit_command(input: &str) -> (r: bool)
    ensures
        r == (eq_ignore_ascii_case(input@, "exit"@) || eq_ignore_ascii_case(input@, "quit"@)),
{
    eq_ignore_case(input, "exit") || eq_ignore_case(input, "quit")
}

/// Whether an answer to the install question means yes: empty, `y` or `yes`.
pub fn wants_install(answer: &str) -> (r: bool)
    ensures
        r == (answer@.len() == 0 || answer@ == "y"@ || answer@ == "yes"@),
{
    answer.unicode_len() == 0 || str_eq(answer, "y") || str_eq(answer, "yes")
}

} // verus!
