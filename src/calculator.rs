//! The calculator's state: the typed input, the text shown as result, and
//! the settings it was started with.
use vstd::prelude::*;
use crate::config::Config;
use crate::error::{message_of, EvalError};
use crate::normalize::{normalize, normalized};
use crate::parser::{parse, parse_spec, Expr};

verus! {

pub struct CalculatorApp {
    input: String,
    result: String,
    config: Config,
}

/// Relies on `String::pop`: removes and returns the last character, if any.
#[verifier::external_body]
fn pop_char(s: &mut String) -> (r: Option<char>)
    ensures
        old(s)@.len() == 0 ==> r is None && final(s)@ == old(s)@,
        old(s)@.len() > 0 ==> r == Some(old(s)@.last()) && final(s)@ == old(s)@.drop_last(),
{
    s.pop()
}

/// Whether two strings hold the same characters.
pub fn same_text(a: &str, b: &str) -> (r: bool)
    ensures
        r == (a@ == b@),
{
    let n = a.unicode_len();
    if n != b.unicode_len() {
        return false;
    }
    let mut i: usize = 0;
    while i < n
        invariant
            n == a@.len(),
            n == b@.len(),
            i <= n,
            forall|k: int| 0 <= k < i ==> a@[k] == b@[k],
        decreases n - i,
    {
        if a.get_char(i) != b.get_char(i) {
            return false;
        }
        i += 1;
    }
    assert(a@ =~= b@);
    true
}

/// The text that a button label puts into the input: the root button opens
/// a call, the absolute-value button a pair of bars, and the division and
/// multiplication glyphs their ASCII operators.
pub open spec fn key_text(label: Seq<char>) -> Seq<char> {
    if label == "√"@ {
        "√("@
    } else if label == "|x|"@ {
        "||"@
    } else if label == "÷"@ {
        "/"@
    } else if label == "×"@ {
        "*"@
    } else {
        label
    }
}

/// The text shown for an error.
pub open spec fn error_text(e: EvalError) -> Seq<char> {
    "Error: "@ + message_of(e)
}

impl CalculatorApp {
    pub closed spec fn input_view(&self) -> Seq<char> {
        self.input@
    }

    pub closed spec fn result_view(&self) -> Seq<char> {
        self.result@
    }

    pub closed spec fn config_view(&self) -> Config {
        self.config
    }

    /// A calculator with empty input showing `0`.
    pub fn new(config: Config) -> (r: Self)
        ensures
            r.input_view() == Seq::<char>::empty(),
            r.result_view() == "0"@,
            r.config_view() == config,
    {
        CalculatorApp { input: String::new(), result: "0".to_owned(), config }
    }

    pub fn input(&self) -> (r: &str)
        ensures
            r@ == self.input_view(),
    {
        self.input.as_str()
    }

    pub fn result(&self) -> (r: &str)
        ensures
            r@ == self.result_view(),
    {
        self.result.as_str()
    }

    pub fn config(&self) -> (r: &Config)
        ensures
            *r == self.config_view(),
    {
        &self.config
    }

    /// Appends typed text to the input.
    pub fn add_to_input(&mut self, text: &str)
        ensures
            final(self).input_view() == old(self).input_view() + text@,
            final(self).result_view() == old(self).result_view(),
            final(self).config_view() == old(self).config_view(),
    {
        self.input.append(text);
    }

    /// Empties the input and shows `0` again.
    pub fn clear_input(&mut self)
        ensures
            final(self).input_view() == Seq::<char>::empty(),
            final(self).result_view() == "0"@,
            final(self).config_view() == old(self).config_view(),
    {
        self.input = String::new();
        self.result = "0".to_owned();
    }

    /// Removes the last character of the input, if there is one.
    pub fn backspace(&mut self)
        ensures
            old(self).input_view().len() == 0 ==> final(self).input_view() == old(self).input_view(),
            old(self).input_view().len() > 0 ==> final(self).input_view() == old(self).input_view().drop_last(),
            final(self).result_view() == old(self).result_view(),
            final(self).config_view() == old(self).config_view(),
    {
        let _ = pop_char(&mut self.input);
    }

    /// Shows the formatted value of a successful evaluation.
    pub fn show_value(&mut self, text: &str)
        ensures
            final(self).result_view() == text@,
            final(self).input_view() == old(self).input_view(),
            final(self).config_view() == old(self).config_view(),
    {
        self.result = text.to_owned();
    }

    /// Shows an error as `Error: ` followed by its message; the input stays
    /// as typed so that it can be corrected.
    pub fn show_error(&mut self, e: EvalError)
        ensures
            final(self).result_view() == error_text(e),
            final(self).input_view() == old(self).input_view(),
            final(self).config_view() == old(self).config_view(),
    {
        let mut text = "Error: ".to_owned();
        let m = e.message();
        text.append(m.as_str());
        self.result = text;
    }

    /// Normalizes and parses the input. On success the canonical string and
    /// its tree are handed back for numeric evaluation and the state is
    /// unchanged; on failure the error is shown.
    pub fn calculate(&mut self) -> (r: Option<(String, Expr)>)
        ensures
            final(self).input_view() == old(self).input_view(),
            final(self).config_view() == old(self).config_view(),
            match parse_spec(normalized(old(self).input_view())) {
                Ok(e) => r matches Some((c, t)) && c@ == normalized(old(self).input_view()) && t == e
                    && final(self).result_view() == old(self).result_view(),
                Err(err) => r is None && final(self).result_view() == error_text(err),
            },
    {
        let canonical = normalize(self.input.as_str());
        match parse(canonical.as_str()) {
            Ok(tree) => Some((canonical, tree)),
            Err(e) => {
                self.show_error(e);
                None
            },
        }
    }

    /// Acts on a button press. Returns whether the input should now be
    /// evaluated (the `=` button); `C` clears, `DEL` removes a character and
    /// every other button appends its text.
    pub fn press(&mut self, label: &str) -> (evaluate: bool)
        ensures
            evaluate == (label@ == "="@),
            final(self).config_view() == old(self).config_view(),
            label@ == "="@ ==> final(self).input_view() == old(self).input_view()
                && final(self).result_view() == old(self).result_view(),
            label@ == "C"@ ==> final(self).input_view() == Seq::<char>::empty()
                && final(self).result_view() == "0"@,
            label@ == "DEL"@ ==> final(self).result_view() == old(self).result_view() && (
            if old(self).input_view().len() == 0 {
                final(self).input_view() == old(self).input_view()
            } else {
                final(self).input_view() == old(self).input_view().drop_last()
            }),
            label@ != "="@ && label@ != "C"@ && label@ != "DEL"@ ==> final(self).input_view()
                == old(self).input_view() + key_text(label@) && final(self).result_view()
                == old(self).result_view(),
    {
        proof {
            reveal_strlit("=");
            reveal_strlit("C");
            reveal_strlit("DEL");
            reveal_strlit("√");
            reveal_strlit("|x|");
            reveal_strlit("÷");
            reveal_strlit("×");
            assert("C"@[0] != "="@[0]);
            assert("DEL"@.len() != "="@.len());
            assert("DEL"@.len() != "C"@.len());
        }
        if same_text(label, "=") {
            true
        } else if same_text(label, "C") {
            self.clear_input();
            false
        } else if same_text(label, "DEL") {
            self.backspace();
            false
        } else {
            if same_text(label, "√") {
                self.add_to_input("√(");
            } else if same_text(label, "|x|") {
                self.add_to_input("||");
            } else if same_text(label, "÷") {
                self.add_to_input("/");
            } else if same_text(label, "×") {
                self.add_to_input("*");
            } else {
                self.add_to_input(label);
            }
            false
        }
    }
}

} // verus!
