use vstd::prelude::*;
use vstd::string::*;

use crate::cfn_text::{
    cache_behavior_text, cache_behavior_text_string, distribution_text, distribution_text_string,
    origin_text, origin_text_string, registry_bucket_text, registry_bucket_text_string, registry_lambda_text,
    registry_lambda_text_string, sqs_queue_text, sqs_queue_text_string,
};
use crate::text::{
    ascii_alnum, byte_length, bool_string, bool_text, byte_len, concat3, debug_list_text, debug_str,
    debug_str_text, debug_string_list, decimal, decimal_string, ends_with, is_ascii_alnum,
    remove_char, seq_ends_with, str_eq, strings_view, to_string, without_char,
};

verus! {

/// The region codes that deployments may name.
pub open spec fn aws_regions() -> Seq<Seq<char>> {
    seq![
        "us-east-1"@,
        "us-east-2"@,
        "us-west-1"@,
        "us-west-2"@,
        "ca-central-1"@,
        "eu-north-1"@,
        "eu-west-3"@,
        "eu-west-2"@,
        "eu-west-1"@,
        "eu-central-1"@,
        "eu-south-1"@,
        "ap-south-1"@,
        "ap-northeast-1"@,
        "ap-northeast-2"@,
        "ap-northeast-3"@,
        "ap-southeast-1"@,
        "ap-southeast-2"@,
        "ap-southeast-3"@,
        "ap-east-1"@,
        "sa-east-1"@,
        "cn-north-1"@,
        "cn-northwest-1"@,
        "us-gov-east-1"@,
        "us-gov-west-1"@,
        "us-gov-secret-1"@,
        "us-gov-topsecret-1"@,
        "us-gov-topsecret-2"@,
        "me-south-1"@,
        "af-south-1"@,
    ]
}

/// The region codes that deployments may name, in their documented order.
pub fn valid_aws_regions() -> (r: Vec<String>)
    ensures
        strings_view(r@) == aws_regions(),
{
    let mut v: Vec<String> = Vec::new();
    v.push(to_string("us-east-1"));
    v.push(to_string("us-east-2"));
    v.push(to_string("us-west-1"));
    v.push(to_string("us-west-2"));
    v.push(to_string("ca-central-1"));
    v.push(to_string("eu-north-1"));
    v.push(to_string("eu-west-3"));
    v.push(to_string("eu-west-2"));
    v.push(to_string("eu-west-1"));
    v.push(to_string("eu-central-1"));
    v.push(to_string("eu-south-1"));
    v.push(to_string("ap-south-1"));
    v.push(to_string("ap-northeast-1"));
    v.push(to_string("ap-northeast-2"));
    v.push(to_string("ap-northeast-3"));
    v.push(to_string("ap-southeast-1"));
    v.push(to_string("ap-southeast-2"));
    v.push(to_string("ap-southeast-3"));
    v.push(to_string("ap-east-1"));
    v.push(to_string("sa-east-1"));
    v.push(to_string("cn-north-1"));
    v.push(to_string("cn-northwest-1"));
    v.push(to_string("us-gov-east-1"));
    v.push(to_string("us-gov-west-1"));
    v.push(to_string("us-gov-secret-1"));
    v.push(to_string("us-gov-topsecret-1"));
    v.push(to_string("us-gov-topsecret-2"));
    v.push(to_string("me-south-1"));
    v.push(to_string("af-south-1"));
    assert(strings_view(v@) =~= aws_regions());
    v
}

/// Whether `r` is one of the region codes.
pub fn is_valid_region(r: &str) -> (b: bool)
    ensures
        b == aws_regions().contains(r@),
{
    let regions = valid_aws_regions();
    let n = regions.len();
    let mut i: usize = 0;
    while i < n
        invariant
            n == regions@.len(),
            strings_view(regions@) == aws_regions(),
            0 <= i <= n,
            forall|j: int| 0 <= j < i ==> aws_regions()[j] != r@,
        decreases n - i,
    {
        if str_eq(regions[i].as_str(), r) {
            assert(aws_regions()[i as int] == r@);
            return true;
        }
        i = i + 1;
    }
    false
}

/// Whether every character is an ASCII letter or digit.
pub open spec fn all_ascii_alnum(s: Seq<char>) -> bool {
    forall|i: int| 0 <= i < s.len() ==> is_ascii_alnum(#[trigger] s[i])
}

fn check_all_ascii_alnum(s: &str) -> (r: bool)
    ensures
        r == all_ascii_alnum(s@),
{
    let n = s.unicode_len();
    let mut i: usize = 0;
    while i < n
        invariant
            n == s@.len(),
            0 <= i <= n,
            forall|j: int| 0 <= j < i ==> is_ascii_alnum(#[trigger] s@[j]),
        decreases n - i,
    {
        if !ascii_alnum(s.get_char(i)) {
            return false;
        }
        i = i + 1;
    }
    true
}

/// The message for a resource name that is not a valid logical id, if it is not: at most
/// 255 bytes, at least one, all ASCII letters and digits.
pub open spec fn resource_name_problem(s: Seq<char>) -> Option<Seq<char>> {
    if byte_len(s) > 255 {
        Some("Invalid resource name "@ + debug_str_text(s) + "\nmust be less than 255 characters"@)
    } else if byte_len(s) < 1 {
        Some(
            "Invalid resource name "@ + debug_str_text(s) + "\nMust contain at least 1 character"@,
        )
    } else if !all_ascii_alnum(s) {
        Some(
            "Invalid resource name "@ + debug_str_text(s)
                + "\nMust contain only alphanumeric characters [A-Za-z0-9]"@,
        )
    } else {
        None
    }
}

/// Checks a logical resource id; the result is the problem, if there is one.
pub fn verify_resource_name(resource_name: &str) -> (r: Option<String>)
    ensures
        match resource_name_problem(resource_name@) {
            Some(m) => r matches Some(s) && s@ == m,
            None => r is None,
        },
{
    let len = byte_length(resource_name);
    if len > 255 {
        let d = debug_str(resource_name);
        return Some(
            concat3("Invalid resource name ", d.as_str(), "\nmust be less than 255 characters"),
        );
    }
    if len < 1 {
        let d = debug_str(resource_name);
        return Some(
            concat3("Invalid resource name ", d.as_str(), "\nMust contain at least 1 character"),
        );
    }
    if !check_all_ascii_alnum(resource_name) {
        let d = debug_str(resource_name);
        return Some(
            concat3(
                "Invalid resource name ",
                d.as_str(),
                "\nMust contain only alphanumeric characters [A-Za-z0-9]",
            ),
        );
    }
    None
}

/// The first `n` bytes of a byte sequence (all of it when shorter).
pub open spec fn truncate_bytes(b: Seq<u8>, n: nat) -> Seq<u8> {
    if b.len() <= n {
        b
    } else {
        b.subrange(0, n as int)
    }
}

/// Whether cutting `s` after `n` bytes does not split a character.
pub open spec fn can_truncate(s: Seq<char>, n: nat) -> bool {
    byte_len(s) <= n || vstd::utf8::is_char_boundary(vstd::utf8::encode_utf8(s), n as int)
}

/// The string cut after `n` bytes (`String::truncate`), where that does not split a character.
pub fn truncate_string(s: String, n: usize) -> (r: String)
    requires
        can_truncate(s@, n as nat),
    ensures
        vstd::utf8::encode_utf8(r@) == truncate_bytes(vstd::utf8::encode_utf8(s@), n as nat),
{
    if byte_length(s.as_str()) <= n {
        s
    } else {
        let (a, _) = s.as_str().split_at(n);
        let r = to_string(a);
        assert(vstd::utf8::encode_utf8(r@) =~= truncate_bytes(vstd::utf8::encode_utf8(s@), n as nat));
        r
    }
}

// ---------------------------------------------------------------- queues

/// The settings of a queue.
#[derive(Debug)]
pub struct SqsInput {
    /// The logical name of the queue resource.
    pub resource_name: String,
    /// Seconds before a sent message becomes visible; 0 - 900.
    pub default_queue_delay_s: u32,
    /// Largest message in bytes; 1024 - 262144.
    pub max_message_size_bytes: u32,
    /// Seconds a message is kept; 60 - 1209600.
    pub max_retention_period_s: u32,
    /// Name of the queue; empty lets the deployment pick one.
    pub queue_name: String,
    /// Seconds a receive call waits for messages; 0 - 20.
    pub receive_message_wait_time_s: u32,
    /// Whether the queue is encrypted with managed keys.
    pub managed_sse_enabled: bool,
    /// Seconds a received message stays hidden from other consumers; 0 - 43200.
    pub visibility_timeout_s: u32,
    /// Region of the queue.
    pub region: String,
}

impl SqsInput {
    /// The default settings for the queue of the module `name`: the resource name is `Q` and
    /// the name without underscores, cut to 256 bytes; the queue name is the name cut to 80
    /// bytes; no delay, 256 KiB messages kept 4 days, no waiting, no encryption, a 30 s
    /// visibility timeout, in `us-west-2`.
    pub fn new(name: &str) -> (r: SqsInput)
        requires
            can_truncate(without_char("Q"@ + name@, '_'), 256),
            can_truncate(name@, 80),
        ensures
            vstd::utf8::encode_utf8(r.resource_name@) == truncate_bytes(
                vstd::utf8::encode_utf8(without_char("Q"@ + name@, '_')),
                256,
            ),
            vstd::utf8::encode_utf8(r.queue_name@) == truncate_bytes(
                vstd::utf8::encode_utf8(name@),
                80,
            ),
            r.default_queue_delay_s == 0,
            r.max_message_size_bytes == 262144,
            r.max_retention_period_s == 345600,
            r.receive_message_wait_time_s == 0,
            !r.managed_sse_enabled,
            r.visibility_timeout_s == 30,
            r.region@ == "us-west-2"@,
    {
        let mut q = to_string("Q");
        q.append(name);
        let q = remove_char(q.as_str(), '_');
        let resource_name = truncate_string(q, 256);
        let queue_name = truncate_string(to_string(name), 80);
        SqsInput {
            resource_name,
            default_queue_delay_s: 0,
            max_message_size_bytes: 262144,
            max_retention_period_s: 345600,
            queue_name,
            receive_message_wait_time_s: 0,
            managed_sse_enabled: false,
            visibility_timeout_s: 30,
            region: to_string("us-west-2"),
        }
    }

    /// The problem with the settings, if there is one; the checks run in this order: the
    /// queue name (when given) is at most 80 bytes, not a FIFO name, and made of ASCII
    /// letters, digits, `-` and `_`; then the numeric ranges; then the resource name.
    pub open spec fn problem(&self) -> Option<Seq<char>> {
        let q = self.queue_name@;
        if q.len() > 0 && byte_len(q) > 80 {
            Some("Invalid queue name "@ + debug_str_text(q) + "\nmust be <= 80 characters"@)
        } else if q.len() > 0 && seq_ends_with(q, ".fifo"@) {
            Some(
                "Invalid queue name "@ + debug_str_text(q)
                    + "\nFIFO queues are not supported yet"@,
            )
        } else if q.len() > 0 && !all_queue_name_chars(q) {
            Some(
                "Invalid queue name "@ + debug_str_text(q)
                    + "\nOnly alphanumeric characters and '_' and '-' are supported"@,
            )
        } else if self.default_queue_delay_s > 900 {
            Some(
                "Invalid default queue delay "@ + decimal(self.default_queue_delay_s as nat)
                    + "\nValid range 0 - 900"@,
            )
        } else if self.max_message_size_bytes < 1024 || self.max_message_size_bytes > 262144 {
            Some(
                "Invalid max message size "@ + decimal(self.max_message_size_bytes as nat)
                    + "\nValid range 1024 - 262144"@,
            )
        } else if self.max_retention_period_s < 60 || self.max_retention_period_s > 1209600 {
            Some(
                "Invalid max retention period "@ + decimal(self.max_retention_period_s as nat)
                    + "\nValid range 60 - 1209600"@,
            )
        } else if self.receive_message_wait_time_s > 20 {
            Some(
                "Invalid receive message wait time "@ + decimal(
                    self.receive_message_wait_time_s as nat,
                ) + "\nValid range 0 - 20"@,
            )
        } else if self.visibility_timeout_s > 43200 {
            Some(
                "Invalid visibility timeout "@ + decimal(self.visibility_timeout_s as nat)
                    + "\nValid range 0 - 43200"@,
            )
        } else {
            resource_name_problem(self.resource_name@)
        }
    }

    /// Checks the settings; the result is the problem, if there is one.
    pub fn is_valid(&self) -> (r: Option<String>)
        ensures
            match self.problem() {
                Some(m) => r matches Some(s) && s@ == m,
                None => r is None,
            },
    {
        let q = self.queue_name.as_str();
        if q.unicode_len() > 0 {
            if byte_length(q) > 80 {
                let d = debug_str(q);
                return Some(concat3("Invalid queue name ", d.as_str(), "\nmust be <= 80 characters"));
            }
            if ends_with(q, ".fifo") {
                let d = debug_str(q);
                return Some(
                    concat3("Invalid queue name ", d.as_str(), "\nFIFO queues are not supported yet"),
                );
            }
            if !check_queue_name_chars(q) {
                let d = debug_str(q);
                return Some(
                    concat3(
                        "Invalid queue name ",
                        d.as_str(),
                        "\nOnly alphanumeric characters and '_' and '-' are supported",
                    ),
                );
            }
        }
        if self.default_queue_delay_s > 900 {
            let d = decimal_string(self.default_queue_delay_s as u64);
            return Some(concat3("Invalid default queue delay ", d.as_str(), "\nValid range 0 - 900"));
        }
        if self.max_message_size_bytes < 1024 || self.max_message_size_bytes > 262144 {
            let d = decimal_string(self.max_message_size_bytes as u64);
            return Some(
                concat3("Invalid max message size ", d.as_str(), "\nValid range 1024 - 262144"),
            );
        }
        if self.max_retention_period_s < 60 || self.max_retention_period_s > 1209600 {
            let d = decimal_string(self.max_retention_period_s as u64);
            return Some(
                concat3("Invalid max retention period ", d.as_str(), "\nValid range 60 - 1209600"),
            );
        }
        if self.receive_message_wait_time_s > 20 {
            let d = decimal_string(self.receive_message_wait_time_s as u64);
            return Some(
                concat3("Invalid receive message wait time ", d.as_str(), "\nValid range 0 - 20"),
            );
        }
        if self.visibility_timeout_s > 43200 {
            let d = decimal_string(self.visibility_timeout_s as u64);
            return Some(
                concat3("Invalid visibility timeout ", d.as_str(), "\nValid range 0 - 43200"),
            );
        }
        verify_resource_name(self.resource_name.as_str())
    }

    /// The template text of the queue.
    pub open spec fn cfn_text(&self) -> Seq<char> {
        let qn = if self.queue_name@.len() == 0 {
            "# queue name omitted. Cfn will randomly generate it"@
        } else {
            "QueueName: "@ + self.queue_name@
        };
        sqs_queue_text(
            self.resource_name@,
            decimal(self.default_queue_delay_s as nat),
            decimal(self.max_message_size_bytes as nat),
            decimal(self.max_retention_period_s as nat),
            qn,
            decimal(self.receive_message_wait_time_s as nat),
            bool_text(self.managed_sse_enabled),
            decimal(self.visibility_timeout_s as nat),
        )
    }

    /// The template text of the queue.
    pub fn output_cfn(&self) -> (r: String)
        ensures
            r@ == self.cfn_text(),
    {
        let qn = if self.queue_name.as_str().unicode_len() == 0 {
            to_string("# queue name omitted. Cfn will randomly generate it")
        } else {
            let mut s = to_string("QueueName: ");
            s.append(self.queue_name.as_str());
            s
        };
        let a = decimal_string(self.default_queue_delay_s as u64);
        let b = decimal_string(self.max_message_size_bytes as u64);
        let c = decimal_string(self.max_retention_period_s as u64);
        let d = decimal_string(self.receive_message_wait_time_s as u64);
        let e = bool_string(self.managed_sse_enabled);
        let f = decimal_string(self.visibility_timeout_s as u64);
        sqs_queue_text_string(
            self.resource_name.as_str(),
            a.as_str(),
            b.as_str(),
            c.as_str(),
            qn.as_str(),
            d.as_str(),
            e.as_str(),
            f.as_str(),
        )
    }
}

/// Whether every character is an ASCII letter, a digit, `-` or `_`.
pub open spec fn all_queue_name_chars(s: Seq<char>) -> bool {
    forall|i: int|
        0 <= i < s.len() ==> is_ascii_alnum(#[trigger] s[i]) || s[i] == '-' || s[i] == '_'
}

fn check_queue_name_chars(s: &str) -> (r: bool)
    ensures
        r == all_queue_name_chars(s@),
{
    let n = s.unicode_len();
    let mut i: usize = 0;
    while i < n
        invariant
            n == s@.len(),
            0 <= i <= n,
            forall|j: int|
                0 <= j < i ==> is_ascii_alnum(#[trigger] s@[j]) || s@[j] == '-' || s@[j] == '_',
        decreases n - i,
    {
        let c = s.get_char(i);
        if !(ascii_alnum(c) || c == '-' || c == '_') {
            return false;
        }
        i = i + 1;
    }
    true
}


// ---------------------------------------------------------------- functions

/// The settings of a function.
#[derive(Debug)]
pub struct LambdaInput {
    /// The logical name of the function resource; ASCII letters and digits, at most 255.
    pub resource_name: String,
    /// The name of the function; at most 64 bytes; empty lets the deployment pick one.
    pub function_name: String,
    /// Region of the function.
    pub region: String,
    /// Memory in MB; 128 - 10240.
    pub memory_size: u64,
    /// Timeout in seconds; 1 - 900.
    pub timeout: u32,
}

impl LambdaInput {
    /// The default settings for the function `func_name`: the name cut to 58 bytes, the
    /// resource name `Lambda` and that name, `us-west-2`, 128 MB and 30 s.
    pub fn new(func_name: &str) -> (r: LambdaInput)
        requires
            can_truncate(func_name@, 58),
        ensures
            vstd::utf8::encode_utf8(r.function_name@) == truncate_bytes(
                vstd::utf8::encode_utf8(func_name@),
                58,
            ),
            r.resource_name@ == "Lambda"@ + r.function_name@,
            r.region@ == "us-west-2"@,
            r.memory_size == 128,
            r.timeout == 30,
    {
        let name = truncate_string(to_string(func_name), 58);
        let mut resource_name = to_string("Lambda");
        resource_name.append(name.as_str());
        LambdaInput {
            resource_name,
            function_name: name,
            region: to_string("us-west-2"),
            memory_size: 128,
            timeout: 30,
        }
    }

    /// The problem with the settings, if there is one, in the order the checks run.
    pub open spec fn problem(&self) -> Option<Seq<char>> {
        match resource_name_problem(self.resource_name@) {
            Some(m) => Some(m),
            None => if byte_len(self.function_name@) > 64 {
                Some(
                    "Invalid function name "@ + debug_str_text(self.function_name@)
                        + "\nMust be at most 64 characters"@,
                )
            } else if !aws_regions().contains(self.region@) {
                Some(
                    "Invalid region code "@ + debug_str_text(self.region@) + "\nMust be one of "@
                        + debug_list_text(aws_regions()),
                )
            } else if self.memory_size < 128 || self.memory_size > 10240 {
                Some(
                    "Invalid memory size "@ + decimal(self.memory_size as nat)
                        + "\nMust be between 128 and 10240"@,
                )
            } else if self.timeout < 1 || self.timeout > 900 {
                Some(
                    "Invalid timeout "@ + decimal(self.timeout as nat)
                        + "\nMust be between 1 and 900"@,
                )
            } else {
                None
            },
        }
    }

    /// Checks the settings; the result is the problem, if there is one.
    pub fn is_valid(&self) -> (r: Option<String>)
        ensures
            match self.problem() {
                Some(m) => r matches Some(s) && s@ == m,
                None => r is None,
            },
    {
        if let Some(m) = verify_resource_name(self.resource_name.as_str()) {
            return Some(m);
        }
        if byte_length(self.function_name.as_str()) > 64 {
            let d = debug_str(self.function_name.as_str());
            return Some(
                concat3("Invalid function name ", d.as_str(), "\nMust be at most 64 characters"),
            );
        }
        if !is_valid_region(self.region.as_str()) {
            let d = debug_str(self.region.as_str());
            let mut m = concat3("Invalid region code ", d.as_str(), "\nMust be one of ");
            let regions = valid_aws_regions();
            let l = debug_string_list(&regions);
            m.append(l.as_str());
            return Some(m);
        }
        if self.memory_size < 128 || self.memory_size > 10240 {
            let d = decimal_string(self.memory_size);
            return Some(
                concat3("Invalid memory size ", d.as_str(), "\nMust be between 128 and 10240"),
            );
        }
        if self.timeout < 1 || self.timeout > 900 {
            let d = decimal_string(self.timeout as u64);
            return Some(concat3("Invalid timeout ", d.as_str(), "\nMust be between 1 and 900"));
        }
        None
    }

    /// The template text of the function and the names of its bucket and key parameters.
    pub open spec fn cfn_parts(&self) -> (Seq<char>, Seq<char>, Seq<char>) {
        let fname = if self.function_name@.len() == 0 {
            "# FunctionName will be auto-generated"@
        } else {
            "FunctionName: "@ + self.function_name@
        };
        let role = "Role"@ + self.resource_name@;
        let plain = without_char(self.function_name@, '_');
        let bucket_param = "ArtifactBucket"@ + plain;
        let key_param = "ArtifactKey"@ + plain;
        (
            registry_lambda_text(
                self.resource_name@,
                fname,
                bucket_param,
                key_param,
                decimal(self.memory_size as nat),
                decimal(self.timeout as nat),
                role,
            ),
            bucket_param,
            key_param,
        )
    }

    /// The template text of the function and the names of its bucket and key parameters.
    pub fn output_cfn(&self) -> (r: (String, String, String))
        ensures
            (r.0@, r.1@, r.2@) == self.cfn_parts(),
    {
        let fname = if self.function_name.as_str().unicode_len() == 0 {
            to_string("# FunctionName will be auto-generated")
        } else {
            let mut s = to_string("FunctionName: ");
            s.append(self.function_name.as_str());
            s
        };
        let mut role = to_string("Role");
        role.append(self.resource_name.as_str());
        let plain = remove_char(self.function_name.as_str(), '_');
        let mut bucket_param = to_string("ArtifactBucket");
        bucket_param.append(plain.as_str());
        let mut key_param = to_string("ArtifactKey");
        key_param.append(plain.as_str());
        let mem = decimal_string(self.memory_size);
        let tout = decimal_string(self.timeout as u64);
        let text = registry_lambda_text_string(
            self.resource_name.as_str(),
            fname.as_str(),
            bucket_param.as_str(),
            key_param.as_str(),
            mem.as_str(),
            tout.as_str(),
            role.as_str(),
        );
        (text, bucket_param, key_param)
    }

    /// The template parts when the settings are valid, else the problem.
    pub fn verify_and_output_cfn(&self) -> (r: Result<(String, String, String), String>)
        ensures
            match self.problem() {
                Some(m) => r matches Err(s) && s@ == m,
                None => r matches Ok(p) && (p.0@, p.1@, p.2@) == self.cfn_parts(),
            },
    {
        match self.is_valid() {
            Some(m) => Err(m),
            None => Ok(self.output_cfn()),
        }
    }
}

// ---------------------------------------------------------------- buckets

/// The two Adler-32 sums of the bytes: `a` is 1 plus the sum of the bytes, `b` the sum of
/// the running values of `a`, both modulo 65521.
pub open spec fn adler32_sums(data: Seq<u8>) -> (nat, nat)
    decreases data.len(),
{
    if data.len() == 0 {
        (1, 0)
    } else {
        let (a, b) = adler32_sums(data.drop_last());
        let a2 = ((a + data.last()) % 65521) as nat;
        (a2, ((b + a2) % 65521) as nat)
    }
}

/// The Adler-32 checksum of the bytes: `b` in the high 16 bits, `a` in the low 16 bits.
pub open spec fn adler32_checksum(data: Seq<u8>) -> u32 {
    let (a, b) = adler32_sums(data);
    (b * 65536 + a) as u32
}

/// Computes the Adler-32 checksum of a byte slice with `adler::adler32_slice` (see
/// `adler32_checksum`).
#[verifier::external_body]
fn adler32_of(data: &[u8]) -> (r: u32)
    ensures
        r == adler32_checksum(data@),
{
    adler::adler32_slice(data)
}

pub open spec fn hex_char(d: nat) -> char {
    if d < 10 {
        crate::text::digit_char(d)
    } else if d == 10 {
        'a'
    } else if d == 11 {
        'b'
    } else if d == 12 {
        'c'
    } else if d == 13 {
        'd'
    } else if d == 14 {
        'e'
    } else {
        'f'
    }
}

/// The last `count` hexadecimal digits of `n`, most significant first, zero padded.
pub open spec fn hex_digits(n: nat, count: nat) -> Seq<char>
    decreases count,
{
    if count == 0 {
        Seq::empty()
    } else {
        hex_digits(n / 16, (count - 1) as nat).push(hex_char(n % 16))
    }
}

fn hex_digit(d: u32) -> (c: char)
    requires
        d < 16,
    ensures
        c == hex_char(d as nat),
{
    if d < 10 {
        if d == 0 {
            '0'
        } else if d == 1 {
            '1'
        } else if d == 2 {
            '2'
        } else if d == 3 {
            '3'
        } else if d == 4 {
            '4'
        } else if d == 5 {
            '5'
        } else if d == 6 {
            '6'
        } else if d == 7 {
            '7'
        } else if d == 8 {
            '8'
        } else {
            '9'
        }
    } else if d == 10 {
        'a'
    } else if d == 11 {
        'b'
    } else if d == 12 {
        'c'
    } else if d == 13 {
        'd'
    } else if d == 14 {
        'e'
    } else {
        'f'
    }
}

fn push_hex_digits(out: &mut String, n: u32, count: u32)
    ensures
        final(out)@ == old(out)@ + hex_digits(n as nat, count as nat),
    decreases count,
{
    if count == 0 {
        assert(old(out)@ + hex_digits(n as nat, 0) =~= old(out)@);
    } else {
        push_hex_digits(out, n / 16, count - 1);
        crate::text::push_char(out, hex_digit(n % 16));
        assert(old(out)@ + hex_digits((n / 16) as nat, (count - 1) as nat) + seq![
            hex_char((n % 16) as nat),
        ] =~= old(out)@ + hex_digits(n as nat, count as nat));
    }
}

/// The settings of a bucket.
#[derive(Debug)]
pub struct S3Input {
    /// The logical name of the bucket resource.
    pub resource_name: String,
    /// The name of the bucket; empty lets the deployment pick one.
    pub bucket_name: String,
    /// The module name with `_` turned into `-`, from which the bucket name is made.
    pub mod_name_original: String,
    /// How many hexadecimal digits of the checksum end the bucket name; 0 for none.
    pub hash_suffix_length: usize,
    /// Region of the bucket.
    pub region: String,
}

impl Default for S3Input {
    /// Empty names, no suffix, no region.
    fn default() -> (r: S3Input)
        ensures
            r.resource_name@.len() == 0,
            r.bucket_name@.len() == 0,
            r.mod_name_original@.len() == 0,
            r.hash_suffix_length == 0,
            r.region@.len() == 0,
    {
        S3Input {
            resource_name: String::new(),
            bucket_name: String::new(),
            mod_name_original: String::new(),
            hash_suffix_length: 0,
            region: String::new(),
        }
    }
}

/// The text with every `from` turned into `to`.
pub open spec fn replace_char(s: Seq<char>, from: char, to: char) -> Seq<char> {
    Seq::new(s.len(), |i: int| if s[i] == from { to } else { s[i] })
}

fn replace_char_string(s: &str, from: char, to: char) -> (r: String)
    ensures
        r@ == replace_char(s@, from, to),
{
    let n = s.unicode_len();
    let mut out = String::new();
    let mut i: usize = 0;
    while i < n
        invariant
            n == s@.len(),
            0 <= i <= n,
            out@ == replace_char(s@.subrange(0, i as int), from, to),
        decreases n - i,
    {
        let c = s.get_char(i);
        if c == from {
            crate::text::push_char(&mut out, to);
        } else {
            crate::text::push_char(&mut out, c);
        }
        assert(out@ =~= replace_char(s@.subrange(0, i + 1), from, to));
        i = i + 1;
    }
    assert(s@.subrange(0, n as int) =~= s@);
    out
}

/// The bucket name after the hash suffix is applied with the checksum `hash`: unchanged
/// when empty, the original name when no suffix is wanted, otherwise the original name,
/// `-` and the first digits of the eight-digit hexadecimal checksum.
pub open spec fn bucket_name_with_hash(
    bucket_name: Seq<char>,
    original: Seq<char>,
    suffix_len: nat,
    hash: u32,
) -> Seq<char> {
    if bucket_name.len() == 0 {
        bucket_name
    } else if suffix_len == 0 {
        original
    } else {
        let h = hex_digits(hash as nat, 8);
        original + "-"@ + (if suffix_len < 8 {
            h.subrange(0, suffix_len as int)
        } else {
            h
        })
    }
}

/// Applying the hash suffix to a bucket name a second time changes nothing: the suffix is
/// made from the original name, not from the name it is applied to.
pub proof fn law_bucket_hash_idempotent(bucket_name: Seq<char>, original: Seq<char>, suffix_len: nat, hash: u32)
    ensures
        bucket_name_with_hash(
            bucket_name_with_hash(bucket_name, original, suffix_len, hash),
            original,
            suffix_len,
            hash,
        ) == bucket_name_with_hash(bucket_name, original, suffix_len, hash),
{
    reveal_strlit("-");
}

impl S3Input {
    /// Applies the hash suffix to the bucket name, given the checksum of the original name.
    pub fn apply_hash_with(&mut self, hash: u32)
        ensures
            final(self).bucket_name@ == bucket_name_with_hash(
                old(self).bucket_name@,
                old(self).mod_name_original@,
                old(self).hash_suffix_length as nat,
                hash,
            ),
            final(self).resource_name == old(self).resource_name,
            final(self).mod_name_original == old(self).mod_name_original,
            final(self).hash_suffix_length == old(self).hash_suffix_length,
            final(self).region == old(self).region,
    {
        if self.bucket_name.as_str().unicode_len() == 0 {
            return;
        }
        if self.hash_suffix_length == 0 {
            self.bucket_name = self.mod_name_original.clone();
            return;
        }
        let mut hash_str = String::new();
        push_hex_digits(&mut hash_str, hash, 8);
        assert(hash_str@ =~= hex_digits(hash as nat, 8));
        proof {
            lemma_hex_digits_len(hash as nat, 8);
        }
        let suffix = if self.hash_suffix_length < 8 {
            to_string(hash_str.as_str().substring_char(0, self.hash_suffix_length))
        } else {
            hash_str
        };
        let mut name = self.mod_name_original.clone();
        name.append("-");
        name.append(suffix.as_str());
        self.bucket_name = name;
    }

    /// Applies the hash suffix to the bucket name, with the Adler-32 checksum of the bytes of
    /// the original name.
    pub fn apply_hash_to_bucket_name(&mut self)
        ensures
            final(self).bucket_name@ == bucket_name_with_hash(
                old(self).bucket_name@,
                old(self).mod_name_original@,
                old(self).hash_suffix_length as nat,
                adler32_checksum(vstd::utf8::encode_utf8(old(self).mod_name_original@)),
            ),
            final(self).resource_name == old(self).resource_name,
            final(self).mod_name_original == old(self).mod_name_original,
            final(self).hash_suffix_length == old(self).hash_suffix_length,
            final(self).region == old(self).region,
    {
        let hash = adler32_of(self.mod_name_original.as_str().as_bytes());
        self.apply_hash_with(hash);
    }

    /// The default settings for the bucket of the module `mod_name`: the original name is
    /// the module name with `-` for `_`, the resource name is `S3` and that name without
    /// `-`, an eight digit suffix, `us-west-2`, and the bucket name is the original name
    /// with its hash suffix.
    pub fn new(mod_name: &str) -> (r: S3Input)
        ensures
            r.mod_name_original@ == replace_char(mod_name@, '_', '-'),
            r.resource_name@ == without_char("S3"@ + r.mod_name_original@, '-'),
            r.hash_suffix_length == 8,
            r.region@ == "us-west-2"@,
            r.bucket_name@ == bucket_name_with_hash(
                r.mod_name_original@,
                r.mod_name_original@,
                8,
                adler32_checksum(vstd::utf8::encode_utf8(r.mod_name_original@)),
            ),
    {
        let original = replace_char_string(mod_name, '_', '-');
        let mut rn = to_string("S3");
        rn.append(original.as_str());
        let resource_name = remove_char(rn.as_str(), '-');
        let mut out = S3Input {
            resource_name,
            bucket_name: original.clone(),
            mod_name_original: original,
            hash_suffix_length: 8,
            region: to_string("us-west-2"),
        };
        out.apply_hash_to_bucket_name();
        out
    }

    /// All problems with the settings, in the order the checks run; none when valid.
    pub open spec fn problems(&self) -> Seq<Seq<char>> {
        resource_name_problems(self.resource_name@) + region_problems(self.region@)
            + bucket_name_problems(self.bucket_name@)
    }

    /// Checks the settings; the result lists every problem, and is empty when they are valid.
    /// The first and the last character of a one-character bucket name are that character.
    pub fn is_valid(&self) -> (r: Vec<String>)
        ensures
            strings_view(r@) == self.problems(),
    {
        let mut out = check_resource_name_all(self.resource_name.as_str());
        let ghost a = strings_view(out@);
        let mut r = check_region_all(self.region.as_str());
        let ghost b = strings_view(r@);
        out.append(&mut r);
        assert(strings_view(out@) =~= a + b);
        let ghost ab = strings_view(out@);
        let mut c = check_bucket_name_all(self.bucket_name.as_str());
        let ghost cv = strings_view(c@);
        out.append(&mut c);
        assert(strings_view(out@) =~= ab + cv);
        out
    }

    /// The template text of the bucket.
    pub open spec fn cfn_text(&self) -> Seq<char> {
        let bn = if self.bucket_name@.len() == 0 {
            "# BucketName will be auto-generated"@
        } else {
            "BucketName: "@ + self.bucket_name@
        };
        registry_bucket_text(self.resource_name@, bn)
    }

    /// The template text of the bucket.
    pub fn output_cfn(&self) -> (r: String)
        ensures
            r@ == self.cfn_text(),
    {
        let bn = if self.bucket_name.as_str().unicode_len() == 0 {
            to_string("# BucketName will be auto-generated")
        } else {
            let mut s = to_string("BucketName: ");
            s.append(self.bucket_name.as_str());
            s
        };
        registry_bucket_text_string(self.resource_name.as_str(), bn.as_str())
    }
}

/// Whether every character is an ASCII lowercase letter, a digit, `.` or `-`.
pub open spec fn all_bucket_chars(s: Seq<char>) -> bool {
    forall|i: int|
        0 <= i < s.len() ==> ('a' <= #[trigger] s[i] && s[i] <= 'z') || ('0' <= s[i] && s[i]
            <= '9') || s[i] == '.' || s[i] == '-'
}

fn check_bucket_chars(s: &str) -> (r: bool)
    ensures
        r == all_bucket_chars(s@),
{
    let n = s.unicode_len();
    let mut i: usize = 0;
    while i < n
        invariant
            n == s@.len(),
            0 <= i <= n,
            forall|j: int|
                0 <= j < i ==> ('a' <= #[trigger] s@[j] && s@[j] <= 'z') || ('0' <= s@[j] && s@[j]
                    <= '9') || s@[j] == '.' || s@[j] == '-',
        decreases n - i,
    {
        let c = s.get_char(i);
        if !(('a' <= c && c <= 'z') || ('0' <= c && c <= '9') || c == '.' || c == '-') {
            return false;
        }
        i = i + 1;
    }
    true
}

/// The problems with a logical resource name: each of the three checks of
/// `resource_name_problem` that fails gives its message.
pub open spec fn resource_name_problems(rn: Seq<char>) -> Seq<Seq<char>> {
    let p1 = if byte_len(rn) > 255 {
        seq!["Invalid resource name "@ + debug_str_text(rn) + "\nmust be less than 255 characters"@]
    } else {
        Seq::empty()
    };
    let p2 = if byte_len(rn) < 1 {
        seq!["Invalid resource name "@ + debug_str_text(rn) + "\nMust contain at least 1 character"@]
    } else {
        Seq::empty()
    };
    let p3 = if !all_ascii_alnum(rn) {
        seq![
            "Invalid resource name "@ + debug_str_text(rn)
                + "\nMust contain only alphanumeric characters [A-Za-z0-9]"@,
        ]
    } else {
        Seq::empty()
    };
    p1 + p2 + p3
}

/// The problem with a region code, if it is not a known one.
pub open spec fn region_problems(region: Seq<char>) -> Seq<Seq<char>> {
    if !aws_regions().contains(region) {
        seq![
            "Invalid region code "@ + debug_str_text(region) + "\nMust be one of "@
                + debug_list_text(aws_regions()),
        ]
    } else {
        Seq::empty()
    }
}

/// The problems with a bucket name, which are only looked for when it is not empty: its
/// length, its characters, its first and last characters, and `..`.
pub open spec fn bucket_name_problems(b: Seq<char>) -> Seq<Seq<char>> {
    if b.len() == 0 {
        Seq::empty()
    } else {
        let p5 = if byte_len(b) > 63 || byte_len(b) < 3 {
            seq!["Invalid bucket name "@ + debug_str_text(b) + "\nMust be between 3 and 63 characters"@]
        } else {
            Seq::empty()
        };
        let p6 = if !all_bucket_chars(b) {
            seq![
                "Invalid bucket name "@ + debug_str_text(b)
                    + "\nMay only contain lowercase letters, numbers, dots, and dashes"@,
            ]
        } else {
            Seq::empty()
        };
        let p7 = if !is_ascii_alnum(b[0]) || !is_ascii_alnum(b.last()) {
            seq![
                "Invalid bucket name "@ + debug_str_text(b)
                    + "\nFirst and last character mut be either lowercase letter, or number"@,
            ]
        } else {
            Seq::empty()
        };
        let p8 = if crate::text::seq_contains_run(b, ".."@) {
            seq!["Invalid bucket name "@ + debug_str_text(b) + "\nMay not contain two consecutive dots"@]
        } else {
            Seq::empty()
        };
        p5 + p6 + p7 + p8
    }
}

pub(crate) fn check_resource_name_all(rname: &str) -> (r: Vec<String>)
    ensures
        strings_view(r@) == resource_name_problems(rname@),
{
    let ghost rn = rname@;
    let mut out: Vec<String> = Vec::new();
    let rlen = byte_length(rname);
    if rlen > 255 {
        let d = debug_str(rname);
        out.push(concat3("Invalid resource name ", d.as_str(), "\nmust be less than 255 characters"));
    }
    let ghost a = strings_view(out@);
    if rlen < 1 {
        let d = debug_str(rname);
        out.push(concat3("Invalid resource name ", d.as_str(), "\nMust contain at least 1 character"));
    }
    let ghost b = strings_view(out@);
    if !check_all_ascii_alnum(rname) {
        let d = debug_str(rname);
        out.push(
            concat3(
                "Invalid resource name ",
                d.as_str(),
                "\nMust contain only alphanumeric characters [A-Za-z0-9]",
            ),
        );
    }
    assert(strings_view(out@) =~= resource_name_problems(rn));
    out
}

pub(crate) fn check_region_all(region: &str) -> (r: Vec<String>)
    ensures
        strings_view(r@) == region_problems(region@),
{
    let mut out: Vec<String> = Vec::new();
    if !is_valid_region(region) {
        let d = debug_str(region);
        let mut m = concat3("Invalid region code ", d.as_str(), "\nMust be one of ");
        let regions = valid_aws_regions();
        let l = debug_string_list(&regions);
        m.append(l.as_str());
        out.push(m);
    }
    assert(strings_view(out@) =~= region_problems(region@));
    out
}

fn check_bucket_name_all(bname: &str) -> (r: Vec<String>)
    ensures
        strings_view(r@) == bucket_name_problems(bname@),
{
    let mut out: Vec<String> = Vec::new();
    let n = bname.unicode_len();
    if n == 0 {
        assert(strings_view(out@) =~= bucket_name_problems(bname@));
        return out;
    }
    let blen = byte_length(bname);
    if blen > 63 || blen < 3 {
        let d = debug_str(bname);
        out.push(concat3("Invalid bucket name ", d.as_str(), "\nMust be between 3 and 63 characters"));
    }
    if !check_bucket_chars(bname) {
        let d = debug_str(bname);
        out.push(
            concat3(
                "Invalid bucket name ",
                d.as_str(),
                "\nMay only contain lowercase letters, numbers, dots, and dashes",
            ),
        );
    }
    let first = bname.get_char(0);
    let last = bname.get_char(n - 1);
    if !ascii_alnum(first) || !ascii_alnum(last) {
        let d = debug_str(bname);
        out.push(
            concat3(
                "Invalid bucket name ",
                d.as_str(),
                "\nFirst and last character mut be either lowercase letter, or number",
            ),
        );
    }
    if crate::text::contains_run(bname, "..") {
        let d = debug_str(bname);
        out.push(concat3("Invalid bucket name ", d.as_str(), "\nMay not contain two consecutive dots"));
    }
    assert(strings_view(out@) =~= bucket_name_problems(bname@));
    out
}

proof fn lemma_hex_digits_len(n: nat, count: nat)
    ensures
        hex_digits(n, count).len() == count,
    decreases count,
{
    if count > 0 {
        lemma_hex_digits_len(n / 16, (count - 1) as nat);
    }
}

// ---------------------------------------------------------------- distributions

/// The settings of the distributions made from a match statement.
#[derive(Debug)]
pub struct CloudfrontInput {
    /// How many distributions were made.
    pub num_distributions: usize,
    /// The certificate for the domains.
    pub acm_arn: String,
    /// Region to deploy to.
    pub region: String,
}

impl CloudfrontInput {
    /// No distributions yet, no certificate, in `us-west-2`.
    pub fn new() -> (r: CloudfrontInput)
        ensures
            r.num_distributions == 0,
            r.acm_arn@.len() == 0,
            r.region@ == "us-west-2"@,
    {
        CloudfrontInput { num_distributions: 0, acm_arn: String::new(), region: to_string("us-west-2") }
    }
}

impl Default for CloudfrontInput {
    /// No distributions, no certificate, no region.
    fn default() -> (r: CloudfrontInput)
        ensures
            r.num_distributions == 0,
            r.acm_arn@.len() == 0,
            r.region@.len() == 0,
    {
        CloudfrontInput { num_distributions: 0, acm_arn: String::new(), region: String::new() }
    }
}

/// One origin of a distribution with the behavior that routes a path pattern to it.
#[derive(Debug)]
pub struct OriginConfig {
    pub origin_id: String,
    pub path_pattern: String,
    pub viewer_protocol_policy: String,
    pub allowed_methods: String,
    pub cache_policy_id: String,
    pub compress: bool,
    pub origin_protocol_policy: String,
    pub origin_domain_name: String,
    pub origin_base_path: String,
}

pub struct OriginConfigV {
    pub origin_id: Seq<char>,
    pub path_pattern: Seq<char>,
    pub viewer_protocol_policy: Seq<char>,
    pub allowed_methods: Seq<char>,
    pub cache_policy_id: Seq<char>,
    pub compress: bool,
    pub origin_protocol_policy: Seq<char>,
    pub origin_domain_name: Seq<char>,
    pub origin_base_path: Seq<char>,
}

pub open spec fn origin_config_view(o: OriginConfig) -> OriginConfigV {
    OriginConfigV {
        origin_id: o.origin_id@,
        path_pattern: o.path_pattern@,
        viewer_protocol_policy: o.viewer_protocol_policy@,
        allowed_methods: o.allowed_methods@,
        cache_policy_id: o.cache_policy_id@,
        compress: o.compress,
        origin_protocol_policy: o.origin_protocol_policy@,
        origin_domain_name: o.origin_domain_name@,
        origin_base_path: o.origin_base_path@,
    }
}

/// The origin number `index` for the path pattern `s`, reached over HTTPS at `domain_name`.
pub open spec fn new_origin(s: Seq<char>, index: nat, domain_name: Seq<char>) -> OriginConfigV {
    OriginConfigV {
        origin_id: "origin"@ + decimal(index),
        path_pattern: s,
        viewer_protocol_policy: "redirect-to-https"@,
        allowed_methods: "[GET, HEAD]"@,
        cache_policy_id: "658327ea-f89d-4fab-a63d-7e88639e58f6"@,
        compress: false,
        origin_protocol_policy: "https-only"@,
        origin_domain_name: domain_name,
        origin_base_path: Seq::empty(),
    }
}

impl OriginConfig {
    /// The origin number `index` for the path pattern `s`, reached over HTTPS at `domain_name`.
    pub fn new(s: String, index: usize, domain_name: &str) -> (r: OriginConfig)
        ensures
            origin_config_view(r) == new_origin(s@, index as nat, domain_name@),
    {
        let mut id = to_string("origin");
        crate::text::push_decimal(&mut id, index as u64);
        OriginConfig {
            origin_id: id,
            path_pattern: s,
            viewer_protocol_policy: to_string("redirect-to-https"),
            allowed_methods: to_string("[GET, HEAD]"),
            cache_policy_id: to_string("658327ea-f89d-4fab-a63d-7e88639e58f6"),
            compress: false,
            origin_protocol_policy: to_string("https-only"),
            origin_domain_name: to_string(domain_name),
            origin_base_path: String::new(),
        }
    }
}

/// The cache behavior of an origin: the default behavior for the pattern `*`, otherwise one
/// with a path pattern.
pub open spec fn cfn_cache_behavior_text(o: OriginConfigV) -> Seq<char> {
    let (key, pattern) = if o.path_pattern == "*"@ {
        ("DefaultCacheBehavior"@, "# no path pattern for default"@)
    } else {
        ("CacheBehavior"@, "PathPattern: "@ + o.path_pattern)
    };
    cache_behavior_text(
        key,
        o.origin_id,
        pattern,
        o.viewer_protocol_policy,
        o.allowed_methods,
        o.cache_policy_id,
        bool_text(o.compress),
    )
}

/// The cache behavior of an origin.
pub fn cfn_cache_behavior(origin_config: &OriginConfig) -> (r: String)
    ensures
        r@ == cfn_cache_behavior_text(origin_config_view(*origin_config)),
{
    let (key, pattern) = if str_eq(origin_config.path_pattern.as_str(), "*") {
        (to_string("DefaultCacheBehavior"), to_string("# no path pattern for default"))
    } else {
        let mut p = to_string("PathPattern: ");
        p.append(origin_config.path_pattern.as_str());
        (to_string("CacheBehavior"), p)
    };
    let c = bool_string(origin_config.compress);
    cache_behavior_text_string(
        key.as_str(),
        origin_config.origin_id.as_str(),
        pattern.as_str(),
        origin_config.viewer_protocol_policy.as_str(),
        origin_config.allowed_methods.as_str(),
        origin_config.cache_policy_id.as_str(),
        c.as_str(),
    )
}

/// The origin entry of an origin.
pub open spec fn cfn_origin_text(o: OriginConfigV) -> Seq<char> {
    let path = if o.origin_base_path.len() == 0 {
        "# no origin base path"@
    } else {
        "OriginPath: "@ + o.origin_base_path
    };
    origin_text(o.origin_id, o.origin_domain_name, path, o.origin_protocol_policy)
}

/// The origin entry of an origin.
pub fn cfn_origin(origin_config: &OriginConfig) -> (r: String)
    ensures
        r@ == cfn_origin_text(origin_config_view(*origin_config)),
{
    let path = if origin_config.origin_base_path.as_str().unicode_len() == 0 {
        to_string("# no origin base path")
    } else {
        let mut p = to_string("OriginPath: ");
        p.append(origin_config.origin_base_path.as_str());
        p
    };
    origin_text_string(
        origin_config.origin_id.as_str(),
        origin_config.origin_domain_name.as_str(),
        path.as_str(),
        origin_config.origin_protocol_policy.as_str(),
    )
}

pub open spec fn origin_configs_view(v: Seq<OriginConfig>) -> Seq<OriginConfigV> {
    Seq::new(v.len(), |i: int| origin_config_view(v[i]))
}

/// Each behavior on a line after the previous one.
pub open spec fn behaviors_lines(o: Seq<OriginConfigV>) -> Seq<char>
    decreases o.len(),
{
    if o.len() == 0 {
        Seq::empty()
    } else {
        behaviors_lines(o.drop_last()) + "\n"@ + cfn_cache_behavior_text(o.last())
    }
}

/// The extra cache behaviors, or a comment when there are none.
pub open spec fn cfn_cache_behaviors_text(o: Seq<OriginConfigV>) -> Seq<char> {
    if o.len() == 0 {
        "# no cache behaviors because only 1 origin"@
    } else {
        "CacheBehaviors:"@ + behaviors_lines(o)
    }
}

/// The extra cache behaviors, or a comment when there are none.
pub fn cfn_cache_behaviors(origins: &Vec<OriginConfig>) -> (r: String)
    ensures
        r@ == cfn_cache_behaviors_text(origin_configs_view(origins@)),
{
    let n = origins.len();
    if n == 0 {
        return to_string("# no cache behaviors because only 1 origin");
    }
    let ghost ov = origin_configs_view(origins@);
    let mut x = to_string("CacheBehaviors:");
    let mut i: usize = 0;
    assert(ov.subrange(0, 0) =~= Seq::<OriginConfigV>::empty());
    assert(x@ =~= "CacheBehaviors:"@ + behaviors_lines(ov.subrange(0, 0)));
    while i < n
        invariant
            n == origins@.len(),
            ov == origin_configs_view(origins@),
            0 <= i <= n,
            x@ == "CacheBehaviors:"@ + behaviors_lines(ov.subrange(0, i as int)),
        decreases n - i,
    {
        x.append("\n");
        let b = cfn_cache_behavior(&origins[i]);
        x.append(b.as_str());
        assert(ov.subrange(0, i + 1).drop_last() =~= ov.subrange(0, i as int));
        i = i + 1;
    }
    assert(ov.subrange(0, n as int) =~= ov);
    x
}

pub open spec fn origins_lines(o: Seq<OriginConfigV>) -> Seq<char>
    decreases o.len(),
{
    if o.len() == 0 {
        Seq::empty()
    } else {
        origins_lines(o.drop_last()) + "\n"@ + cfn_origin_text(o.last())
    }
}

/// The origins entry: the default origin and then the others.
pub open spec fn cfn_origins_text(d: OriginConfigV, rest: Seq<OriginConfigV>) -> Seq<char> {
    "Origins:\n"@ + cfn_origin_text(d) + origins_lines(rest)
}

/// The origins entry: the default origin and then the others.
pub fn cfn_origins(default_origin: &OriginConfig, rest_of_origins: &Vec<OriginConfig>) -> (r:
    String)
    ensures
        r@ == cfn_origins_text(
            origin_config_view(*default_origin),
            origin_configs_view(rest_of_origins@),
        ),
{
    let ghost ov = origin_configs_view(rest_of_origins@);
    let mut x = to_string("Origins:\n");
    let o = cfn_origin(default_origin);
    x.append(o.as_str());
    let ghost start = x@;
    let n = rest_of_origins.len();
    let mut i: usize = 0;
    assert(ov.subrange(0, 0) =~= Seq::<OriginConfigV>::empty());
    assert(x@ =~= start + origins_lines(ov.subrange(0, 0)));
    while i < n
        invariant
            n == rest_of_origins@.len(),
            ov == origin_configs_view(rest_of_origins@),
            0 <= i <= n,
            x@ == start + origins_lines(ov.subrange(0, i as int)),
        decreases n - i,
    {
        x.append("\n");
        let b = cfn_origin(&rest_of_origins[i]);
        x.append(b.as_str());
        assert(ov.subrange(0, i + 1).drop_last() =~= ov.subrange(0, i as int));
        i = i + 1;
    }
    assert(ov.subrange(0, n as int) =~= ov);
    x
}

/// The distribution resource for `host`.
pub open spec fn cfn_resource_text(
    resource_name: Seq<char>,
    host: Seq<char>,
    cert_arn: Seq<char>,
    d: OriginConfigV,
    rest: Seq<OriginConfigV>,
) -> Seq<char> {
    distribution_text(
        resource_name,
        cert_arn,
        host,
        cfn_cache_behavior_text(d),
        cfn_origins_text(d, rest),
        cfn_cache_behaviors_text(rest),
    )
}

/// The distribution resource for `host`.
pub fn cfn_resource(
    resource_name: &str,
    host: &str,
    cert_arn: &str,
    default_origin: OriginConfig,
    other_origins: &Vec<OriginConfig>,
) -> (r: String)
    ensures
        r@ == cfn_resource_text(
            resource_name@,
            host@,
            cert_arn@,
            origin_config_view(default_origin),
            origin_configs_view(other_origins@),
        ),
{
    let b = cfn_cache_behavior(&default_origin);
    let o = cfn_origins(&default_origin, other_origins);
    let c = cfn_cache_behaviors(other_origins);
    distribution_text_string(resource_name, cert_arn, host, b.as_str(), o.as_str(), c.as_str())
}

/// One arm of the match statement: the pattern strings (`None` for `_`) and the result string.
#[derive(Debug)]
pub struct MatchArm {
    pub pattern: Vec<Option<String>>,
    pub expr: String,
}

pub struct ArmV {
    pub pattern: Seq<Option<Seq<char>>>,
    pub expr: Seq<char>,
}

pub open spec fn opt_str_view(o: Option<String>) -> Option<Seq<char>> {
    match o {
        Some(s) => Some(s@),
        None => None,
    }
}

pub open spec fn arms_view(v: Seq<MatchArm>) -> Seq<ArmV> {
    Seq::new(
        v.len(),
        |i: int|
            ArmV {
                pattern: Seq::new(v[i].pattern@.len(), |j: int| opt_str_view(v[i].pattern@[j])),
                expr: v[i].expr@,
            },
    )
}

/// The index of the group for `domain`.
pub open spec fn find_group(g: Seq<(Seq<char>, Seq<OriginConfigV>)>, domain: Seq<char>) -> Option<
    int,
>
    decreases g.len(),
{
    if g.len() == 0 {
        None
    } else if g.last().0 == domain {
        match find_group(g.drop_last(), domain) {
            Some(i) => Some(i),
            None => Some(g.len() - 1),
        }
    } else {
        find_group(g.drop_last(), domain)
    }
}

pub open spec fn has_path(o: Seq<OriginConfigV>, p: Seq<char>) -> bool {
    exists|i: int| 0 <= i < o.len() && (#[trigger] o[i]).path_pattern == p
}

/// The arms from index `i` on grouped by domain into `g`: an arm with fewer than two
/// patterns is skipped; `_` stands for the path `*` and for the domain of the match
/// expression; an arm adds an origin for its path to its domain's group, and the same path
/// twice in a group is refused with a message.
pub open spec fn group_arms(
    arms: Seq<ArmV>,
    domain0: Seq<char>,
    i: int,
    g: Seq<(Seq<char>, Seq<OriginConfigV>)>,
) -> Result<Seq<(Seq<char>, Seq<OriginConfigV>)>, Seq<char>>
    decreases arms.len() - i,
{
    if i < 0 || i >= arms.len() {
        Ok(g)
    } else {
        let a = arms[i];
        if a.pattern.len() < 2 {
            group_arms(arms, domain0, i + 1, g)
        } else {
            let path = match a.pattern[1] {
                None => "*"@,
                Some(s) => s,
            };
            let domain = match a.pattern[0] {
                None => domain0,
                Some(s) => s,
            };
            match find_group(g, domain) {
                Some(k) => if has_path(g[k].1, path) {
                    Err("Found duplicate path pattern for distribution "@ + domain)
                } else {
                    group_arms(
                        arms,
                        domain0,
                        i + 1,
                        g.update(k, (domain, g[k].1.push(new_origin(path, g[k].1.len(), a.expr)))),
                    )
                },
                None => group_arms(
                    arms,
                    domain0,
                    i + 1,
                    g.push((domain, seq![new_origin(path, 0, a.expr)])),
                ),
            }
        }
    }
}

/// The index of the first origin with the path `*`.
pub open spec fn first_star(o: Seq<OriginConfigV>) -> Option<int>
    decreases o.len(),
{
    if o.len() == 0 {
        None
    } else {
        match first_star(o.drop_last()) {
            Some(i) => Some(i),
            None => if o.last().path_pattern == "*"@ {
                Some(o.len() - 1)
            } else {
                None
            },
        }
    }
}

/// The distribution resources of the groups from index `k` on, named `CDN1`, `CDN2`, ...;
/// each group needs an origin for `*`, its first such origin is the default one.
pub open spec fn group_resources(
    g: Seq<(Seq<char>, Seq<OriginConfigV>)>,
    acm: Seq<char>,
    k: int,
    acc: Seq<Seq<char>>,
) -> Result<Seq<Seq<char>>, Seq<char>>
    decreases g.len() - k,
{
    if k < 0 || k >= g.len() {
        Ok(acc)
    } else {
        let (domain, o) = g[k];
        match first_star(o) {
            None => Err(
                "Distribution for "@ + domain
                    + " is missing a default path '*'. Ensure one of your match arms has a wildcard '_' for the path component"@,
            ),
            Some(d) => group_resources(
                g,
                acm,
                k + 1,
                acc.push(
                    cfn_resource_text(
                        "CDN"@ + decimal((k + 1) as nat),
                        domain,
                        acm,
                        o[d],
                        o.remove(d),
                    ),
                ),
            ),
        }
    }
}

/// The distribution resources that a match statement describes: its expression is the
/// pair (domain, "path"), its arms are grouped by domain, and each group gives one
/// distribution; or the message of the first problem.
pub open spec fn distributions_of(expr: Seq<Seq<char>>, arms: Seq<ArmV>, acm: Seq<char>) -> Result<
    Seq<Seq<char>>,
    Seq<char>,
> {
    if expr.len() != 2 {
        Err("this module expects the match statement expression to be a tuple of 2 strings"@)
    } else if expr[1] != "path"@ {
        Err("second tuple element must be string literal \"path\""@)
    } else {
        match group_arms(arms, expr[0], 0, Seq::empty()) {
            Err(e) => Err(e),
            Ok(g) => group_resources(g, acm, 0, Seq::empty()),
        }
    }
}

/// The number of groups the arms fall into, when the grouping succeeds.
pub open spec fn group_count(expr: Seq<Seq<char>>, arms: Seq<ArmV>) -> int {
    match group_arms(arms, expr[0], 0, Seq::empty()) {
        Ok(g) => g.len() as int,
        Err(_) => 0,
    }
}

pub open spec fn groups_view(g: Seq<(String, Vec<OriginConfig>)>) -> Seq<
    (Seq<char>, Seq<OriginConfigV>),
> {
    Seq::new(g.len(), |i: int| (g[i].0@, origin_configs_view(g[i].1@)))
}

proof fn lemma_find_group(g: Seq<(Seq<char>, Seq<OriginConfigV>)>, domain: Seq<char>, k: int)
    requires
        0 <= k <= g.len(),
        forall|j: int| 0 <= j < k ==> g[j].0 != domain,
        k < g.len() ==> g[k].0 == domain,
    ensures
        k < g.len() ==> find_group(g, domain) == Some(k),
        k == g.len() ==> find_group(g, domain) is None,
    decreases g.len(),
{
    if g.len() > 0 {
        let h = g.drop_last();
        if k < h.len() {
            lemma_find_group(h, domain, k);
        } else {
            lemma_find_group(h, domain, h.len() as int);
        }
    }
}

proof fn lemma_first_star(o: Seq<OriginConfigV>, k: int)
    requires
        0 <= k <= o.len(),
        forall|j: int| 0 <= j < k ==> o[j].path_pattern != "*"@,
        k < o.len() ==> o[k].path_pattern == "*"@,
    ensures
        k < o.len() ==> first_star(o) == Some(k),
        k == o.len() ==> first_star(o) is None,
    decreases o.len(),
{
    if o.len() > 0 {
        let h = o.drop_last();
        if k < h.len() {
            lemma_first_star(h, k);
        } else {
            lemma_first_star(h, h.len() as int);
        }
    }
}

/// The distribution resources that a match statement describes (see `distributions_of`);
/// on success the number of distributions is recorded in `input`.
pub fn cloudfront_distributions(
    input: &mut CloudfrontInput,
    expr: &Vec<String>,
    arms: &Vec<MatchArm>,
) -> (r: Result<Vec<String>, String>)
    ensures
        match distributions_of(strings_view(expr@), arms_view(arms@), old(input).acm_arn@) {
            Ok(v) => r matches Ok(o) && strings_view(o@) == v && final(input).num_distributions
                == group_count(strings_view(expr@), arms_view(arms@)),
            Err(m) => r matches Err(e) && e@ == m,
        },
        final(input).acm_arn == old(input).acm_arn,
        final(input).region == old(input).region,
{
    if expr.len() != 2 {
        return Err(
            to_string("this module expects the match statement expression to be a tuple of 2 strings"),
        );
    }
    if !str_eq(expr[1].as_str(), "path") {
        return Err(to_string("second tuple element must be string literal \"path\""));
    }
    let ghost av = arms_view(arms@);
    let ghost d0 = expr@[0]@;
    let mut groups: Vec<(String, Vec<OriginConfig>)> = Vec::new();
    let n = arms.len();
    let mut i: usize = 0;
    assert(groups_view(groups@) =~= Seq::<(Seq<char>, Seq<OriginConfigV>)>::empty());
    while i < n
        invariant
            n == arms@.len(),
            av == arms_view(arms@),
            d0 == expr@[0]@,
            expr@.len() == 2,
            expr@[1]@ == "path"@,
            0 <= i <= n,
            group_arms(av, d0, 0, Seq::empty()) == group_arms(av, d0, i as int, groups_view(groups@)),
        decreases n - i,
    {
        let arm = &arms[i];
        if arm.pattern.len() < 2 {
            i = i + 1;
            continue;
        }
        let path = match &arm.pattern[1] {
            None => to_string("*"),
            Some(s) => s.clone(),
        };
        let domain = match &arm.pattern[0] {
            None => expr[0].clone(),
            Some(s) => s.clone(),
        };
        let ghost a = av[i as int];
        assert(a.pattern.len() == arm.pattern@.len());
        assert(a.pattern[0] == opt_str_view(arm.pattern@[0]));
        assert(a.pattern[1] == opt_str_view(arm.pattern@[1]));
        assert(path@ == (match a.pattern[1] {
            None => "*"@,
            Some(s) => s,
        }));
        assert(domain@ == (match a.pattern[0] {
            None => d0,
            Some(s) => s,
        }));
        let ghost gv = groups_view(groups@);
        let gn = groups.len();
        let mut k: usize = 0;
        let mut found = false;
        #[verifier::loop_isolation(false)]
        while k < gn && !found
            invariant
                gn == groups@.len(),
                gv == groups_view(groups@),
                0 <= k <= gn,
                forall|j: int| 0 <= j < k ==> gv[j].0 != domain@,
                found ==> k < gn && gv[k as int].0 == domain@,
            decreases gn - k + (if found { 0int } else { 1int }),
        {
            if str_eq(groups[k].0.as_str(), domain.as_str()) {
                found = true;
            } else {
                k = k + 1;
            }
        }
        proof {
            lemma_find_group(gv, domain@, k as int);
        }
        if k < gn {
            let on = groups[k].1.len();
            let mut j: usize = 0;
            #[verifier::loop_isolation(false)]
            while j < on
                invariant
                    gn == groups@.len(),
                    k < gn,
                    gv == groups_view(groups@),
                    on == groups@[k as int].1@.len(),
                    0 <= j <= on,
                    forall|q: int| 0 <= q < j ==> gv[k as int].1[q].path_pattern != path@,
                decreases on - j,
            {
                if str_eq(groups[k].1[j].path_pattern.as_str(), path.as_str()) {
                    assert(gv[k as int].1[j as int].path_pattern == path@);
                    assert(has_path(gv[k as int].1, path@));
                    assert(find_group(gv, domain@) == Some(k as int));
                    let mut m = to_string("Found duplicate path pattern for distribution ");
                    m.append(domain.as_str());
                    assert(group_arms(av, d0, i as int, gv) == Err::<
                        Seq<(Seq<char>, Seq<OriginConfigV>)>,
                        Seq<char>,
                    >(m@));
                    return Err(m);
                }
                j = j + 1;
            }
            assert(!has_path(gv[k as int].1, path@));
            let idx = groups[k].1.len();
            let cfg = OriginConfig::new(path, idx, arm.expr.as_str());
            let ghost cfg_v = origin_config_view(cfg);
            let mut entry = groups.remove(k);
            entry.1.push(cfg);
            entry.0 = domain;
            let ghost ev = (entry.0@, origin_configs_view(entry.1@));
            groups.insert(k, entry);
            assert(origin_configs_view(entry.1@) =~= gv[k as int].1.push(cfg_v));
            assert(groups_view(groups@) =~= gv.update(k as int, ev));
        } else {
            let cfg = OriginConfig::new(path, 0, arm.expr.as_str());
            let mut v: Vec<OriginConfig> = Vec::new();
            v.push(cfg);
            let ghost ev = (domain@, origin_configs_view(v@));
            assert(origin_configs_view(v@) =~= seq![origin_config_view(cfg)]);
            groups.push((domain, v));
            assert(groups_view(groups@) =~= gv.push(ev));
        }
        i = i + 1;
    }
    let ghost g = groups_view(groups@);
    let count = groups.len();
    let acm = input.acm_arn.as_str();
    let mut out: Vec<String> = Vec::new();
    let mut rest = groups;
    let mut k: usize = 0;
    assert(strings_view(out@) =~= Seq::<Seq<char>>::empty());
    while rest.len() > 0
        invariant
            expr@.len() == 2,
            expr@[1]@ == "path"@,
            group_arms(arms_view(arms@), expr@[0]@, 0, Seq::empty()) == Ok::<
                Seq<(Seq<char>, Seq<OriginConfigV>)>,
                Seq<char>,
            >(g),
            acm@ == input.acm_arn@,
            g.len() == count,
            0 <= k <= count,
            rest@.len() == count - k,
            forall|j: int| 0 <= j < count - k ==> #[trigger] groups_view(rest@)[j] == g[k + j],
            group_resources(g, acm@, 0, Seq::empty()) == group_resources(
                g,
                acm@,
                k as int,
                strings_view(out@),
            ),
        decreases rest@.len(),
    {
        assert(groups_view(rest@)[0] == g[k as int]);
        let ghost old_rest = rest@;
        let (domain, mut origins) = rest.remove(0);
        assert forall|j: int| 0 <= j < count - (k + 1) implies #[trigger] groups_view(rest@)[j]
            == g[(k + 1) + j] by {
            assert(rest@[j] == old_rest[j + 1]);
            assert(groups_view(old_rest)[j + 1] == g[k + (j + 1)]);
        }
        let ghost ov = origin_configs_view(origins@);
        let on = origins.len();
        let mut j: usize = 0;
        let mut found = false;
        #[verifier::loop_isolation(false)]
        while j < on && !found
            invariant
                on == origins@.len(),
                ov == origin_configs_view(origins@),
                0 <= j <= on,
                forall|q: int| 0 <= q < j ==> ov[q].path_pattern != "*"@,
                found ==> j < on && ov[j as int].path_pattern == "*"@,
            decreases on - j + (if found { 0int } else { 1int }),
        {
            if str_eq(origins[j].path_pattern.as_str(), "*") {
                found = true;
            } else {
                j = j + 1;
            }
        }
        proof {
            lemma_first_star(ov, j as int);
        }
        if j >= on {
            let mut m = to_string("Distribution for ");
            m.append(domain.as_str());
            m.append(
                " is missing a default path '*'. Ensure one of your match arms has a wildcard '_' for the path component",
            );
            return Err(m);
        }
        let default_origin = origins.remove(j);
        assert(origin_configs_view(origins@) =~= ov.remove(j as int));
        let mut name = to_string("CDN");
        crate::text::push_decimal(&mut name, (k + 1) as u64);
        let res = cfn_resource(name.as_str(), domain.as_str(), acm, default_origin, &origins);
        let ghost before = out@;
        out.push(res);
        assert(strings_view(out@) =~= strings_view(before).push(res@));
        k = k + 1;
    }
    input.num_distributions = k;
    Ok(out)
}
} // verus!
