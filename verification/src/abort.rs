//! Why a thread of an enclave stopped, and what the caller is told.
use vstd::prelude::*;

verus! {

/// The size of the buffer in which an enclave may leave a panic message.
pub const DEBUG_BUFFER_LEN: usize = 1024;

/// What an enclave left in its debug buffer when it panicked.
#[derive(Debug, PartialEq, Eq)]
pub struct EnclavePanic {
    /// The debug buffer.
    pub debug_buffer: Vec<u8>,
}

impl EnclavePanic {
    /// Whether the debug buffer has its full size and nothing was written to it.
    pub open spec fn is_blank(self) -> bool {
        self.debug_buffer@ == Seq::new(DEBUG_BUFFER_LEN as nat, |i: int| 0u8)
    }

    /// A panic of an enclave that was not given a debug buffer to write to.
    pub fn blank() -> (panic: EnclavePanic)
        ensures
            panic.is_blank(),
            panic.debug_buffer@.len() == 1024,
            forall|i: int| 0 <= i < 1024 ==> panic.debug_buffer@[i] == 0,
    {
        let mut debug_buffer: Vec<u8> = Vec::new();
        while debug_buffer.len() < DEBUG_BUFFER_LEN
            invariant
                debug_buffer@.len() <= DEBUG_BUFFER_LEN,
                forall|i: int| 0 <= i < debug_buffer@.len() ==> debug_buffer@[i] == 0,
            decreases DEBUG_BUFFER_LEN - debug_buffer@.len(),
        {
            debug_buffer.push(0);
        }
        let panic = EnclavePanic { debug_buffer };
        assert(panic.debug_buffer@ =~= Seq::new(DEBUG_BUFFER_LEN as nat, |i: int| 0u8));
        panic
    }
}

/// Why a thread left the enclave without returning from its entry point.
#[derive(Debug, PartialEq, Eq)]
pub enum EnclaveAbort<T> {
    /// The enclave asked to be destroyed.
    Exit {
        /// Whether it did so in a panic, or what is known of that panic.
        panic: T,
    },
    /// Secondary threads exiting due to an abort
    Secondary,
    /// Nothing can wake the thread any more.
    IndefiniteWait,
    /// The enclave made a usercall that does not exist.
    InvalidUsercall(u64),
    /// The main entry point returned, which it must not do.
    MainReturned,
}

/// Why a call into an enclave failed.
#[derive(Debug, PartialEq, Eq)]
pub enum EnclaveError {
    /// The enclave panicked.
    Panic(EnclavePanic),
    /// No thread of the enclave can wake another any more.
    AllThreadsWaiting,
    /// The thread that was called cannot be woken any more.
    ThreadWaiting,
    /// The enclave made a usercall that does not exist.
    InvalidUsercall(u64),
    /// The main entry point returned.
    MainReturned,
    /// The thread that was called went down with another one.
    OtherThreadAborted,
}

/// The digit for `d` in base 16.
pub open spec fn hex_digit(d: int) -> char {
    seq!['0', '1', '2', '3', '4', '5', '6', '7', '8', '9', 'a', 'b', 'c', 'd', 'e', 'f'][d]
}

/// `n` in base 16, in lower case and without leading zeros.
pub open spec fn hex(n: nat) -> Seq<char>
    decreases n,
{
    if n < 16 {
        seq![hex_digit(n as int)]
    } else {
        hex(n / 16).push(hex_digit((n % 16) as int))
    }
}

/// Whether `c` is a digit in base 16, in lower case.
pub open spec fn is_hex_digit(c: char) -> bool {
    '0' <= c <= '9' || 'a' <= c <= 'f'
}

/// The number that the digits `s` stand for in base 16.
pub open spec fn hex_value(s: Seq<char>) -> int
    decreases s.len(),
{
    if s.len() == 0 {
        0
    } else {
        let c = s.last();
        16 * hex_value(s.drop_last()) + if '0' <= c <= '9' {
            c as int - '0' as int
        } else {
            c as int - 'a' as int + 10
        }
    }
}

/// A number in base 16 can be read back. It has digits in lower case only, and no leading zeros.
pub proof fn law_hex_reads_back(n: nat)
    ensures
        hex_value(hex(n)) == n,
        hex(n).len() >= 1,
        n > 0 ==> hex(n)[0] != '0',
        n == 0 ==> hex(n).len() == 1,
        forall|i: int| 0 <= i < hex(n).len() ==> is_hex_digit(#[trigger] hex(n)[i]),
    decreases n,
{
    if n < 16 {
        assert(hex(n).drop_last() =~= Seq::<char>::empty());
        assert(hex_value(hex(n).drop_last()) == 0);
        assert(hex_value(hex(n)) == n);
    } else {
        law_hex_reads_back(n / 16);
        let front = hex(n / 16);
        assert(hex(n).drop_last() =~= front);
        assert forall|i: int| 0 <= i < hex(n).len() implies is_hex_digit(#[trigger] hex(n)[i]) by {
            if i < front.len() {
                assert(hex(n)[i] == front[i]);
            }
        }
        assert(hex(n)[0] == front[0]);
    }
}

/// Each failure has a text of its own, but for a panic, which has none. The number of an invalid
/// usercall ends its text, in base 16, in lower case and without leading zeros.
pub proof fn law_texts(error: EnclaveError)
    ensures
        match error {
            EnclaveError::Panic(_) => error.text() is None,
            EnclaveError::AllThreadsWaiting => error.text() == Some(
                "All enclave threads are waiting indefinitely without possibility of wakeup"@,
            ),
            EnclaveError::ThreadWaiting => error.text() == Some(
                "This thread is waiting indefinitely without possibility of wakeup"@,
            ),
            EnclaveError::InvalidUsercall(n) => exists|digits: Seq<char>|
                {
                    &&& #[trigger] hex_value(digits) == n
                    &&& forall|i: int| 0 <= i < digits.len() ==> is_hex_digit(#[trigger] digits[i])
                    &&& digits.len() >= 1
                    &&& digits[0] == '0' ==> digits.len() == 1
                    &&& error.text() == Some(
                        "The enclave performed an invalid usercall 0x"@ + digits,
                    )
                },
            EnclaveError::MainReturned => error.text() == Some(
                "The enclave returned from the main entrypoint in violation of the specification."@,
            ),
            EnclaveError::OtherThreadAborted => error.text() == Some(
                "This thread exited because another thread aborted"@,
            ),
        },
{
    if let EnclaveError::InvalidUsercall(n) = error {
        law_hex_reads_back(n as nat);
    }
}

/// The digit for `d` in base 16, as a string.
fn hex_digit_str(d: u64) -> (digit: &'static str)
    requires
        d < 16,
    ensures
        digit@ == seq![hex_digit(d as int)],
{
    proof {
        reveal_strlit("0");
        reveal_strlit("1");
        reveal_strlit("2");
        reveal_strlit("3");
        reveal_strlit("4");
        reveal_strlit("5");
        reveal_strlit("6");
        reveal_strlit("7");
        reveal_strlit("8");
        reveal_strlit("9");
        reveal_strlit("a");
        reveal_strlit("b");
        reveal_strlit("c");
        reveal_strlit("d");
        reveal_strlit("e");
        reveal_strlit("f");
    }
    match d {
        0 => "0",
        1 => "1",
        2 => "2",
        3 => "3",
        4 => "4",
        5 => "5",
        6 => "6",
        7 => "7",
        8 => "8",
        9 => "9",
        10 => "a",
        11 => "b",
        12 => "c",
        13 => "d",
        14 => "e",
        _ => "f",
    }
}

/// Appends `n` in base 16 to `text`.
fn append_hex(text: &mut String, n: u64)
    ensures
        final(text)@ == old(text)@ + hex(n as nat),
    decreases n,
{
    if n >= 16 {
        append_hex(text, n / 16);
    }
    text.append(hex_digit_str(n % 16));
    proof {
        if n >= 16 {
            assert(text@ =~= old(text)@ + hex((n / 16) as nat).push(hex_digit((n % 16) as int)));
        }
    }
}

impl EnclaveError {
    /// What a person is told. A panic speaks for itself.
    pub open spec fn text(self) -> Option<Seq<char>> {
        match self {
            EnclaveError::Panic(_) => None,
            EnclaveError::AllThreadsWaiting => Some(
                "All enclave threads are waiting indefinitely without possibility of wakeup"@,
            ),
            EnclaveError::ThreadWaiting => Some(
                "This thread is waiting indefinitely without possibility of wakeup"@,
            ),
            EnclaveError::InvalidUsercall(n) => Some(
                "The enclave performed an invalid usercall 0x"@ + hex(n as nat),
            ),
            EnclaveError::MainReturned => Some(
                "The enclave returned from the main entrypoint in violation of the specification."@,
            ),
            EnclaveError::OtherThreadAborted => Some(
                "This thread exited because another thread aborted"@,
            ),
        }
    }

    /// What a person is told, unless the enclave panicked: then the panic says it.
    pub fn message(&self) -> (message: Option<String>)
        ensures
            message is Some <==> self.text() is Some,
            message matches Some(m) ==> m@ == self.text()->0,
    {
        match self {
            EnclaveError::Panic(_) => None,
            EnclaveError::AllThreadsWaiting => Some(
                "All enclave threads are waiting indefinitely without possibility of wakeup".to_string(),
            ),
            EnclaveError::ThreadWaiting => Some(
                "This thread is waiting indefinitely without possibility of wakeup".to_string(),
            ),
            EnclaveError::InvalidUsercall(n) => {
                let mut text: String = "The enclave performed an invalid usercall 0x".to_string();
                append_hex(&mut text, *n);
                Some(text)
            },
            EnclaveError::MainReturned => Some(
                "The enclave returned from the main entrypoint in violation of the specification.".to_string(),
            ),
            EnclaveError::OtherThreadAborted => Some(
                "This thread exited because another thread aborted".to_string(),
            ),
        }
    }
}

} // verus!
