use vstd::prelude::*;
use vstd::string::*;

use crate::registry::{all_ascii_alnum, all_queue_name_chars, can_truncate, resource_name_problem, truncate_bytes, SqsInput};
use crate::module_loading::ident_chars;
use crate::registry_modules::hira_awscfn::{cfn_file_entries, output_cfn_file};
use crate::registry_modules::{user_data_name, with_error, LibraryObj, UserData};
use crate::text::{is_ascii_alnum, seq_ends_with, without_char};

verus! {

/// The message for an item that is not a module.
pub open spec fn not_a_module_message() -> Seq<char> {
    "This module can only be used on mod defs. Eg expected usage:\n```\n#[hira(|obj: &mut hira_awssqs::SqsInput| {})]\nmod mysqs_queue { ... }\n```"@
}

/// The default settings of the queue of the module `name` (see `SqsInput::new`).
pub open spec fn sqs_defaults(name: Seq<char>, r: SqsInput) -> bool {
    &&& vstd::utf8::encode_utf8(r.resource_name@) == truncate_bytes(
        vstd::utf8::encode_utf8(without_char("Q"@ + name, '_')),
        256,
    )
    &&& vstd::utf8::encode_utf8(r.queue_name@) == truncate_bytes(vstd::utf8::encode_utf8(name), 80)
    &&& r.default_queue_delay_s == 0
    &&& r.max_message_size_bytes == 262144
    &&& r.max_retention_period_s == 345600
    &&& r.receive_message_wait_time_s == 0
    &&& !r.managed_sse_enabled
    &&& r.visibility_timeout_s == 30
    &&& r.region@ == "us-west-2"@
}

proof fn lemma_without_char_concat(a: Seq<char>, b: Seq<char>, c: char)
    ensures
        without_char(a + b, c) == without_char(a, c) + without_char(b, c),
    decreases b.len(),
{
    if b.len() == 0 {
        assert(a + b =~= a);
        assert(without_char(a, c) + without_char(b, c) =~= without_char(a, c));
    } else {
        assert((a + b).drop_last() =~= a + b.drop_last());
        assert((a + b).last() == b.last());
        lemma_without_char_concat(a, b.drop_last(), c);
        if b.last() != c {
            assert(without_char(a, c) + without_char(b.drop_last(), c).push(b.last()) =~= (
            without_char(a, c) + without_char(b.drop_last(), c)).push(b.last()));
        }
    }
}

proof fn lemma_without_char_alnum(s: Seq<char>, c: char)
    requires
        forall|i: int| 0 <= i < s.len() ==> is_ascii_alnum(#[trigger] s[i]) || s[i] == c,
    ensures
        all_ascii_alnum(without_char(s, c)),
    decreases s.len(),
{
    if s.len() > 0 {
        let d = s.drop_last();
        assert forall|i: int| 0 <= i < d.len() implies is_ascii_alnum(#[trigger] d[i]) || d[i] == c by {
            assert(d[i] == s[i]);
        }
        lemma_without_char_alnum(d, c);
        assert(is_ascii_alnum(s[s.len() - 1]) || s[s.len() - 1] == c);
    }
}

proof fn lemma_ascii_prefix_encoding(n: Seq<char>, k: int)
    requires
        vstd::utf8::is_ascii_chars(n),
        0 <= k <= n.len(),
    ensures
        vstd::utf8::encode_utf8(n.subrange(0, k)) == vstd::utf8::encode_utf8(n).subrange(0, k),
{
    let p = n.subrange(0, k);
    assert(vstd::utf8::is_ascii_chars(p)) by {
        assert forall|i: int| 0 <= i < p.len() implies '\0' <= #[trigger] p[i] <= '\u{7f}' by {
            assert(p[i] == n[i]);
        }
    }
    vstd::utf8::is_ascii_chars_encode_utf8(n);
    vstd::utf8::is_ascii_chars_encode_utf8(p);
    assert forall|i: int| 0 <= i < k implies vstd::utf8::encode_utf8(p)[i] == vstd::utf8::encode_utf8(n)[i] by {
        assert(p[i] == n[i]);
        assert(p[i] as u8 == vstd::utf8::encode_utf8(p)[i]);
        assert(n[i] as u8 == vstd::utf8::encode_utf8(n)[i]);
    }
    assert(vstd::utf8::encode_utf8(p) =~= vstd::utf8::encode_utf8(n).subrange(0, k));
}

/// The default settings of the queue of a module whose name is made of ASCII letters,
/// digits and `_`, with fewer than 255 characters other than `_`, have no problem: the
/// resource name is `Q` and the name's other characters, and the queue name is the name
/// cut to 80 characters.
pub proof fn law_sqs_defaults_valid(name: Seq<char>, q: SqsInput)
    requires
        ident_chars(name),
        without_char(name, '_').len() < 255,
        sqs_defaults(name, q),
    ensures
        q.problem() is None,
{
    broadcast use vstd::utf8::encode_utf8_decode_utf8;

    reveal_strlit("Q");
    reveal_strlit(".fifo");
    let rn = without_char("Q"@ + name, '_');
    lemma_without_char_concat("Q"@, name, '_');
    assert(without_char("Q"@, '_') =~= "Q"@) by {
        assert("Q"@.len() == 1 && "Q"@.last() == 'Q');
        assert("Q"@.drop_last() =~= Seq::<char>::empty());
        assert(without_char(Seq::<char>::empty(), '_') == Seq::<char>::empty());
        assert(Seq::<char>::empty().push('Q') =~= "Q"@);
    }
    let qn = "Q"@ + name;
    assert forall|i: int| 0 <= i < qn.len() implies is_ascii_alnum(#[trigger] qn[i]) || qn[i] == '_' by {
        if i >= 1 {
            assert(qn[i] == name[i - 1]);
        }
    }
    lemma_without_char_alnum(qn, '_');
    assert(vstd::utf8::is_ascii_chars(rn)) by {
        assert forall|i: int| 0 <= i < rn.len() implies '\0' <= #[trigger] rn[i] <= '\u{7f}' by {
            assert(is_ascii_alnum(rn[i]));
        }
    }
    vstd::utf8::is_ascii_chars_encode_utf8(rn);
    assert(q.resource_name@ == rn) by {
        assert(vstd::utf8::decode_utf8(vstd::utf8::encode_utf8(q.resource_name@)) == q.resource_name@);
    }
    assert(resource_name_problem(rn) is None) by {
        assert(rn.len() >= 1) by {
            assert(rn[0] == 'Q');
        }
    }
    assert(vstd::utf8::is_ascii_chars(name)) by {
        assert forall|i: int| 0 <= i < name.len() implies '\0' <= #[trigger] name[i] <= '\u{7f}' by {
            assert(is_ascii_alnum(name[i]) || name[i] == '_');
        }
    }
    vstd::utf8::is_ascii_chars_encode_utf8(name);
    let k: int = if name.len() <= 80 { name.len() as int } else { 80 };
    lemma_ascii_prefix_encoding(name, k);
    assert(name.subrange(0, name.len() as int) =~= name);
    assert(vstd::utf8::encode_utf8(q.queue_name@) == vstd::utf8::encode_utf8(name.subrange(0, k)));
    let qq = name.subrange(0, k);
    assert(q.queue_name@ == qq) by {
        assert(vstd::utf8::decode_utf8(vstd::utf8::encode_utf8(q.queue_name@)) == q.queue_name@);
        assert(vstd::utf8::decode_utf8(vstd::utf8::encode_utf8(qq)) == qq);
    }
    assert(all_queue_name_chars(qq)) by {
        assert forall|i: int| 0 <= i < qq.len() implies is_ascii_alnum(#[trigger] qq[i]) || qq[i] == '-' || qq[i] == '_' by {
            assert(qq[i] == name[i]);
        }
    }
    assert(!seq_ends_with(qq, ".fifo"@)) by {
        if qq.len() >= 5 {
            let t = qq.subrange(qq.len() - 5, qq.len() as int);
            assert(t[0] == qq[qq.len() - 5]);
            assert(is_ascii_alnum(qq[qq.len() - 5]) || qq[qq.len() - 5] == '_');
            assert(".fifo"@[0] == '.');
        }
    }
}

/// What checking the settings `queue_input` makes of `before` (see `wasm_entrypoint_with`).
pub open spec fn sqs_finished(before: LibraryObj, after: LibraryObj, queue_input: SqsInput) -> bool {
    &&& match queue_input.problem() {
        Some(m) => after.compiler_error_message@ == with_error(before.compiler_error_message@, m)
            && after.entries() == before.entries(),
        None => after.compiler_error_message@ == before.compiler_error_message@ && after.entries()
            == before.entries() + cfn_file_entries(
            queue_input.region@,
            Seq::empty(),
            queue_input.cfn_text(),
        ),
    }
    &&& after.add_code_after@ == before.add_code_after@
    &&& after.user_data == before.user_data
}

/// Applied to a module: makes the default queue settings for it, lets `cb` change them,
/// then checks them and asks for the queue in the template (see `wasm_entrypoint_with`).
pub fn wasm_entrypoint(obj: &mut LibraryObj, cb: impl FnOnce(&mut SqsInput))
    requires
        old(obj).user_data is Module ==> can_truncate(
            without_char("Q"@ + user_data_name(old(obj).user_data), '_'),
            256,
        ) && can_truncate(user_data_name(old(obj).user_data), 80),
        forall|q: &mut SqsInput| cb.requires((q,)),
    ensures
        !(old(obj).user_data is Module) ==> final(obj).compiler_error_message@ == with_error(
            old(obj).compiler_error_message@,
            not_a_module_message(),
        ) && final(obj).entries() == old(obj).entries() && final(obj).add_code_after@
            == old(obj).add_code_after@,
        old(obj).user_data is Module ==> exists|q: &mut SqsInput|
            {
                &&& sqs_defaults(user_data_name(old(obj).user_data), *q)
                &&& #[trigger] cb.ensures((q,), ())
                &&& sqs_finished(*old(obj), *final(obj), *final(q))
            },
{
    let name = match &obj.user_data {
        UserData::Module { name, .. } => name.clone(),
        _ => {
            obj.compiler_error(
                "This module can only be used on mod defs. Eg expected usage:\n```\n#[hira(|obj: &mut hira_awssqs::SqsInput| {})]\nmod mysqs_queue { ... }\n```",
            );
            return ;
        },
    };
    let mut queue_input = SqsInput::new(name.as_str());
    let q = &mut queue_input;
    cb(q);
    wasm_entrypoint_with(obj, &queue_input);
}

/// Checks queue settings: a problem is reported as the compiler error; valid settings ask
/// for the deploy command and the queue's template lines in its region.
pub fn wasm_entrypoint_with(obj: &mut LibraryObj, queue_input: &SqsInput)
    ensures
        match queue_input.problem() {
            Some(m) => final(obj).compiler_error_message@ == with_error(
                old(obj).compiler_error_message@,
                m,
            ) && final(obj).entries() == old(obj).entries(),
            None => final(obj).compiler_error_message@ == old(obj).compiler_error_message@
                && final(obj).entries() == old(obj).entries() + cfn_file_entries(
                queue_input.region@,
                Seq::empty(),
                queue_input.cfn_text(),
            ),
        },
        final(obj).add_code_after@ == old(obj).add_code_after@,
        final(obj).user_data == old(obj).user_data,
{
    if let Some(err_msg) = queue_input.is_valid() {
        obj.compiler_error(err_msg.as_str());
        return ;
    }
    let resources = queue_input.output_cfn();
    let params: Vec<(String, String)> = Vec::new();
    proof {
        assert(crate::registry_modules::hira_awscfn::pairs_view(params@) =~= Seq::empty());
    }
    output_cfn_file(obj, queue_input.region.as_str(), params.as_slice(), resources);
}

} // verus!
