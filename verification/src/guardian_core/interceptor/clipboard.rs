//! Detects secrets (keys, tokens, passwords) in clipboard text with
//! configurable regular expressions.
use vstd::prelude::*;
use crate::text::{concat3, owned};
use crate::bindings::{regex_compiles, regex_matches, regex_search};

verus! {

/// A named detection rule.
#[derive(Debug, Clone)]
pub struct SensitiveRule {
    pub name: String,
    pub pattern: String,
}

/// The pattern used when no configured rule compiles.
pub const FALLBACK_PATTERN: &'static str = r"(?i)(password|key|secret|token|api_key|private_key|auth_token|access_key|mnemonic|seed_phrase|credentials|passwd|passphrase)[=: ]+[a-zA-Z0-9\-_\s]{8,}";

/// The name of the fallback rule.
pub const FALLBACK_NAME: &'static str = "fallback";

/// The configured rules whose pattern compiles, in their order.
pub open spec fn compiling_rules(rules: Seq<(Seq<char>, Seq<char>)>) -> Seq<(Seq<char>, Seq<char>)>
    decreases rules.len(),
{
    if rules.len() == 0 {
        seq![]
    } else {
        let rest = compiling_rules(rules.drop_last());
        if regex_compiles(rules.last().1) {
            rest.push(rules.last())
        } else {
            rest
        }
    }
}

/// The label reported for a detection by the rule named `name`.
pub open spec fn detection_label(name: Seq<char>) -> Seq<char> {
    "[DETECTED: "@ + name + "]"@
}

/// The label of the first rule whose pattern matches `text`.
pub open spec fn first_detection(rules: Seq<(Seq<char>, Seq<char>)>, text: Seq<char>) -> Option<
    Seq<char>,
>
    decreases rules.len(),
{
    if rules.len() == 0 {
        None
    } else if regex_compiles(rules[0].1) && regex_matches(rules[0].1, text) {
        Some(detection_label(rules[0].0))
    } else {
        first_detection(rules.drop_first(), text)
    }
}

/// The (name, pattern) views of rules.
pub open spec fn rule_views(v: Seq<SensitiveRule>) -> Seq<(Seq<char>, Seq<char>)> {
    v.map_values(|r: SensitiveRule| (r.name@, r.pattern@))
}

/// The (name, pattern) views of configured pairs.
pub open spec fn pair_views(v: Seq<(String, String)>) -> Seq<(Seq<char>, Seq<char>)> {
    v.map_values(|r: (String, String)| (r.0@, r.1@))
}

/// Watches clipboard text for secrets.
#[derive(Debug)]
pub struct ClipboardMonitor {
    sensitive_regexes: Vec<SensitiveRule>,
}

impl View for ClipboardMonitor {
    type V = Seq<(Seq<char>, Seq<char>)>;

    /// The rules in use, as (name, pattern) pairs, in the order they are tried.
    closed spec fn view(&self) -> Seq<(Seq<char>, Seq<char>)> {
        rule_views(self.sensitive_regexes@)
    }
}

impl ClipboardMonitor {
    /// A monitor using the configured (name, pattern) rules whose patterns
    /// compile, in their order; when none does, the single built-in rule
    /// `fallback`. The built-in pattern is compiled first and its error, if
    /// any, is returned.
    pub fn new(configured: Vec<(String, String)>) -> (r: Result<ClipboardMonitor, regex::Error>)
        ensures
            r is Ok <==> (compiling_rules(pair_views(configured@)).len() > 0 || regex_compiles(
                FALLBACK_PATTERN@,
            )),
            r matches Ok(m) ==> m@ == if compiling_rules(pair_views(configured@)).len() > 0 {
                compiling_rules(pair_views(configured@))
            } else {
                seq![(FALLBACK_NAME@, FALLBACK_PATTERN@)]
            },
    {
        let mut rules: Vec<SensitiveRule> = Vec::new();
        let mut i: usize = 0;
        while i < configured.len()
            invariant
                i <= configured@.len(),
                rule_views(rules@) == compiling_rules(pair_views(configured@).take(i as int)),
            decreases configured@.len() - i,
        {
            let (name, pattern) = &configured[i];
            proof {
                let pv = pair_views(configured@);
                assert(pv.take(i + 1).drop_last() == pv.take(i as int));
                assert(pv.take(i + 1).last() == (name@, pattern@));
            }
            match regex_search(pattern.as_str(), "") {
                Ok(_) => {
                    rules.push(SensitiveRule { name: name.clone(), pattern: pattern.clone() });
                },
                Err(_) => {},
            }
            i += 1;
        }
        proof {
            assert(pair_views(configured@).take(configured@.len() as int) == pair_views(
                configured@,
            ));
        }
        if rules.len() == 0 {
            match regex_search(FALLBACK_PATTERN, "") {
                Ok(_) => {
                    rules.push(
                        SensitiveRule { name: owned(FALLBACK_NAME), pattern: owned(FALLBACK_PATTERN) },
                    );
                    proof {
                        assert(rule_views(rules@) == seq![(FALLBACK_NAME@, FALLBACK_PATTERN@)]);
                    }
                },
                Err(e) => {
                    return Err(e);
                },
            }
        }
        Ok(ClipboardMonitor { sensitive_regexes: rules })
    }

    /// The label of the first rule that matches `text`, in the form
    /// `[DETECTED: <rule name>]`.
    pub fn check_text(&self, text: &str) -> (r: Option<String>)
        ensures
            match r {
                Some(l) => first_detection(self@, text@) == Some(l@),
                None => first_detection(self@, text@) is None,
            },
    {
        let mut i: usize = 0;
        proof {
            assert(self@.skip(0) == self@);
        }
        while i < self.sensitive_regexes.len()
            invariant
                i <= self.sensitive_regexes@.len(),
                first_detection(self@, text@) == first_detection(self@.skip(i as int), text@),
            decreases self.sensitive_regexes@.len() - i,
        {
            let rule = &self.sensitive_regexes[i];
            proof {
                assert(self@.skip(i as int)[0] == (rule.name@, rule.pattern@));
                assert(self@.skip(i as int).drop_first() == self@.skip(i + 1));
            }
            match regex_search(rule.pattern.as_str(), text) {
                Ok(true) => {
                    return Some(concat3("[DETECTED: ", rule.name.as_str(), "]"));
                },
                _ => {},
            }
            i += 1;
        }
        None
    }

    /// The detection for the clipboard's text; `None` when the clipboard
    /// could not be read as text.
    pub fn check_clipboard(&self, clipboard_text: Option<&str>) -> (r: Option<String>)
        ensures
            match clipboard_text {
                Some(t) => match r {
                    Some(l) => first_detection(self@, t@) == Some(l@),
                    None => first_detection(self@, t@) is None,
                },
                None => r is None,
            },
    {
        match clipboard_text {
            Some(t) => self.check_text(t),
            None => None,
        }
    }
}

} // verus!
