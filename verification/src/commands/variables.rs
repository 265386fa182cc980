//! The commands that list, read, set and delete user variables.
use crate::commands::{push_with_breaks, with_breaks, Execution, ExecutionError};
use crate::dice::VariableEntry;
use crate::error::BotError;
use crate::text::{
    chars_of, decimal_string, push_decimal, push_str, sort_texts, text_order, texts,
};
use crate::variables::{parse_set_variable, spec_parse_set_variable};
use vstd::prelude::*;

verus! {

/// List all of the user's variables.
pub struct GetAllVariablesCommand;

/// Show the value of a variable.
pub struct GetVariableCommand(pub String);

/// Set a variable to a value.
pub struct SetVariableCommand(pub String, pub i32);

/// Delete a variable.
pub struct DeleteVariableCommand(pub String);

/// The line listing one variable: ` - <name> = <value>`.
pub open spec fn variable_line(v: VariableEntry) -> Seq<char> {
    " - "@ + v.0@ + " = "@ + decimal_string(v.1 as int)
}

/// Texts joined by line breaks.
pub open spec fn join_lines(lines: Seq<Seq<char>>) -> Seq<char>
    decreases lines.len(),
{
    if lines.len() == 0 {
        Seq::empty()
    } else if lines.len() == 1 {
        lines[0]
    } else {
        join_lines(lines.drop_last()) + "\n"@ + lines.last()
    }
}

/// The listing of the variables: one line each, in text order.
pub open spec fn variables_text(vars: Seq<VariableEntry>) -> Seq<char> {
    "<strong>Variables:</strong><br/>"@ + with_breaks(
        join_lines(vars.map_values(|v: VariableEntry| variable_line(v)).sort_by(text_order())),
    )
}

impl GetAllVariablesCommand {
    /// The command for the text after `!variables`; the text is ignored.
    pub fn from_input(_input: &str) -> (r: Result<GetAllVariablesCommand, BotError>)
        ensures
            r is Ok,
    {
        Ok(GetAllVariablesCommand)
    }

    /// The listing of the user's variables, sorted.
    pub fn response(vars: &[VariableEntry]) -> (r: Result<Execution, ExecutionError>)
        ensures
            r matches Ok(e) && e.html_view() == variables_text(vars@),
    {
        let mut lines: Vec<String> = Vec::new();
        let mut i: usize = 0;
        while i < vars.len()
            invariant
                i <= vars@.len(),
                texts(lines@) == vars@.take(i as int).map_values(|v: VariableEntry| variable_line(v)),
            decreases vars@.len() - i,
        {
            let mut line = String::new();
            push_str(&mut line, " - ");
            push_str(&mut line, vars[i].0.as_str());
            push_str(&mut line, " = ");
            push_decimal(&mut line, vars[i].1 as i64);
            let ghost before = lines@;
            lines.push(line);
            proof {
                assert(texts(lines@) =~= texts(before).push(line@));
                assert(vars@.take(i + 1) =~= vars@.take(i as int).push(vars@[i as int]));
                assert(vars@.take(i + 1).map_values(|v: VariableEntry| variable_line(v))
                    =~= vars@.take(i as int).map_values(|v: VariableEntry| variable_line(v)).push(
                    variable_line(vars@[i as int]),
                ));
            }
            i = i + 1;
        }
        proof {
            assert(vars@.take(i as int) =~= vars@);
        }
        let sorted = sort_texts(lines);
        let mut joined = String::new();
        let mut k: usize = 0;
        while k < sorted.len()
            invariant
                k <= sorted@.len(),
                joined@ == join_lines(texts(sorted@).take(k as int)),
            decreases sorted@.len() - k,
        {
            if k > 0 {
                push_str(&mut joined, "\n");
            }
            push_str(&mut joined, sorted[k].as_str());
            proof {
                let t = texts(sorted@).take(k + 1);
                assert(t.drop_last() =~= texts(sorted@).take(k as int));
                assert(t.last() == sorted@[k as int]@);
                if k == 0 {
                    assert(joined@ =~= join_lines(t));
                } else {
                    assert(joined@ =~= join_lines(t));
                }
            }
            k = k + 1;
        }
        proof {
            assert(texts(sorted@).take(k as int) =~= texts(sorted@));
        }
        let mut html = String::new();
        push_str(&mut html, "<strong>Variables:</strong><br/>");
        push_with_breaks(&mut html, joined.as_str());
        Execution::success(html)
    }
}

impl GetVariableCommand {
    /// The command for the text after `!get`: the variable's name.
    pub fn from_input(input: &str) -> (r: Result<GetVariableCommand, BotError>)
        ensures
            r matches Ok(cmd) && cmd.0@ == input@,
    {
        Ok(GetVariableCommand(input.to_owned()))
    }

    /// The response to reading the variable `name`, whose value is `value`
    /// when it is set.
    pub fn response(name: &str, value: Option<i32>) -> (r: Result<Execution, ExecutionError>)
        ensures
            r matches Ok(e) && e.html_view() == "<strong>Variable:</strong> "@ + name@ + match value {
                Some(v) => " = "@ + decimal_string(v as int),
                None => " is not set"@,
            },
    {
        let mut html = String::new();
        push_str(&mut html, "<strong>Variable:</strong> ");
        push_str(&mut html, name);
        match value {
            Some(v) => {
                push_str(&mut html, " = ");
                push_decimal(&mut html, v as i64);
            },
            None => push_str(&mut html, " is not set"),
        }
        Execution::success(html)
    }
}

impl SetVariableCommand {
    /// The command for the text after `!set`: `<name> = <value>`.
    pub fn from_input(input: &str) -> (r: Result<SetVariableCommand, BotError>)
        ensures
            match spec_parse_set_variable(input@) {
                Ok((name, value)) => r matches Ok(cmd) && cmd.0@ == name && cmd.1 == value,
                Err(e) => r matches Err(BotError::VariableParsingError(f)) && f == e,
            },
    {
        let v = chars_of(input);
        match parse_set_variable(&v) {
            Ok((name, value)) => Ok(SetVariableCommand(name, value)),
            Err(e) => Err(BotError::VariableParsingError(e)),
        }
    }

    /// The response to setting the variable.
    pub fn response(&self) -> (r: Result<Execution, ExecutionError>)
        ensures
            r matches Ok(e) && e.html_view() == "<strong>Set Variable:</strong> "@ + self.0@ + " = "@
                + decimal_string(self.1 as int),
    {
        let mut html = String::new();
        push_str(&mut html, "<strong>Set Variable:</strong> ");
        push_str(&mut html, self.0.as_str());
        push_str(&mut html, " = ");
        push_decimal(&mut html, self.1 as i64);
        Execution::success(html)
    }
}

impl DeleteVariableCommand {
    /// The command for the text after `!del`: the variable's name.
    pub fn from_input(input: &str) -> (r: Result<DeleteVariableCommand, BotError>)
        ensures
            r matches Ok(cmd) && cmd.0@ == input@,
    {
        Ok(DeleteVariableCommand(input.to_owned()))
    }

    /// The response to deleting the variable, which was set or not.
    pub fn response(&self, was_set: bool) -> (r: Result<Execution, ExecutionError>)
        ensures
            r matches Ok(e) && e.html_view() == "<strong>Remove Variable:</strong> "@ + self.0@ + if was_set {
                " now unset"@
            } else {
                " is not currently set"@
            },
    {
        let mut html = String::new();
        push_str(&mut html, "<strong>Remove Variable:</strong> ");
        push_str(&mut html, self.0.as_str());
        if was_set {
            push_str(&mut html, " now unset");
        } else {
            push_str(&mut html, " is not currently set");
        }
        Execution::success(html)
    }
}


/// The listing of variables does not depend on the order in which the
/// store hands them out: the same variables in any order list the same.
pub proof fn lemma_variables_listing_order_free(a: Seq<VariableEntry>, b: Seq<VariableEntry>)
    requires
        a.to_multiset() == b.to_multiset(),
    ensures
        variables_text(a) == variables_text(b),
{
    let f = |v: VariableEntry| variable_line(v);
    let la = a.map_values(f);
    let lb = b.map_values(f);
    lemma_map_multiset(a, b, f);
    crate::text::lemma_text_order_total();
    la.lemma_sort_by_ensures(text_order());
    lb.lemma_sort_by_ensures(text_order());
    vstd::seq_lib::lemma_sorted_unique(la.sort_by(text_order()), lb.sort_by(text_order()), text_order());
}

/// Sequences with the same elements keep the same elements when each is
/// mapped by `f`.
proof fn lemma_map_multiset<A, B>(a: Seq<A>, b: Seq<A>, f: spec_fn(A) -> B)
    requires
        a.to_multiset() == b.to_multiset(),
    ensures
        a.map_values(f).to_multiset() == b.map_values(f).to_multiset(),
    decreases a.len(),
{
    broadcast use vstd::seq_lib::group_to_multiset_ensures;

    if a.len() == 0 {
        assert(b.to_multiset().len() == 0);
        assert(b.len() == 0);
        assert(a.map_values(f) =~= Seq::<B>::empty());
        assert(b.map_values(f) =~= Seq::<B>::empty());
    } else {
        let x = a.last();
        assert(a.to_multiset().count(x) > 0) by {
            assert(a.contains(x)) by {
                assert(a[a.len() - 1] == x);
            }
        }
        assert(b.contains(x));
        let j = choose|j: int| 0 <= j < b.len() && b[j] == x;
        let a2 = a.drop_last();
        let b2 = b.remove(j);
        assert(a2.to_multiset() =~= a.to_multiset().remove(x)) by {
            assert(a =~= a2.push(x));
        }
        assert(b2.to_multiset() =~= b.to_multiset().remove(x));
        lemma_map_multiset(a2, b2, f);
        assert(a.map_values(f) =~= a2.map_values(f).push(f(x)));
        assert(b.map_values(f) =~= b2.map_values(f).insert(j, f(x)));
        vstd::seq_lib::to_multiset_insert(b2.map_values(f), j, f(x));
    }
}

}
