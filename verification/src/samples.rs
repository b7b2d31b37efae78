//! Sample content for trying the sidebar out: a goal, a long suggestion and
//! a log of commands and messages, some of them long enough to scroll.

use vstd::prelude::*;
use std::time::{Duration, SystemTime};
use crate::activity::{ActivityItem, AgentMode, CommandStatus, CurrentGoal, CurrentSuggestion};
use crate::chat::system_now;
use crate::sidebar::AiSidebar;
use crate::validation::{decimal, usize_to_string};

verus! {

pub const SAMPLE_GOAL: &'static str = "Fix the build errors in the project";

pub const SAMPLE_SUGGESTION_TITLE: &'static str = "Install missing dependency";

/// The sample suggestion: a long guide, to scroll through.
pub const SAMPLE_SUGGESTION: &'static str = r#"It looks like the linker couldn't find OpenSSL. This is a common issue when building projects that depend on OpenSSL for cryptographic functionality. Let me provide a comprehensive guide to resolving this issue.

## Quick Solution

Run the following command to install OpenSSL:

```bash
brew install openssl@3
```

## If That Doesn't Work

You may need to set environment variables to help the build system find OpenSSL:

```bash
export PKG_CONFIG_PATH="/opt/homebrew/opt/openssl@3/lib/pkgconfig"
export LDFLAGS="-L/opt/homebrew/opt/openssl@3/lib"
export CPPFLAGS="-I/opt/homebrew/opt/openssl@3/include"
```

## Common Issues

1. **Wrong OpenSSL version**: Some projects require openssl@1.1 instead of openssl@3
2. **Multiple OpenSSL installations**: Check `brew list | grep openssl` to see all versions
3. **Architecture mismatch**: On M1 Macs, ensure you're using the right architecture
4. **Missing pkg-config**: Install with `brew install pkg-config`
5. **Incorrect paths**: Verify paths with `brew --prefix openssl@3`

## Detailed Troubleshooting Steps

### Step 1: Check Current Installation
First, let's check what OpenSSL versions you have installed:

```bash
brew list | grep openssl
ls -la /opt/homebrew/opt/ | grep openssl
which openssl
openssl version
```

### Step 2: Clean Installation
If you have conflicts, clean up first:

```bash
brew uninstall --ignore-dependencies openssl@3
brew uninstall --ignore-dependencies openssl@1.1
brew cleanup
```

### Step 3: Fresh Install
Install the required version:

```bash
brew install openssl@3
brew link openssl@3 --force
```

### Step 4: Verify Installation
Check that everything is properly installed:

```bash
brew test openssl@3
pkg-config --libs openssl
```

### Step 5: Configure Your Shell
Add these to your shell configuration file (~/.zshrc or ~/.bashrc):

```bash
# OpenSSL Configuration
export PATH="/opt/homebrew/opt/openssl@3/bin:$PATH"
export LDFLAGS="-L/opt/homebrew/opt/openssl@3/lib"
export CPPFLAGS="-I/opt/homebrew/opt/openssl@3/include"
export PKG_CONFIG_PATH="/opt/homebrew/opt/openssl@3/lib/pkgconfig"
```

### Step 6: Alternative Solutions

#### Using MacPorts
If Homebrew doesn't work, try MacPorts:

```bash
sudo port install openssl
sudo port select --set openssl openssl3
```

#### Building from Source
As a last resort, build OpenSSL from source:

```bash
wget https://www.openssl.org/source/openssl-3.0.7.tar.gz
tar -xf openssl-3.0.7.tar.gz
cd openssl-3.0.7
./config --prefix=/usr/local/openssl --openssldir=/usr/local/openssl
make
sudo make install
```

## Platform-Specific Notes

### macOS Monterey and Later
Apple has deprecated OpenSSL in favor of their own crypto libraries. You may need to:

1. Disable System Integrity Protection (not recommended)
2. Use a different crypto library
3. Explicitly specify OpenSSL paths in your build configuration

### M1/M2 Mac Considerations
On Apple Silicon, paths differ:
- Intel: `/usr/local/opt/openssl@3`
- Apple Silicon: `/opt/homebrew/opt/openssl@3`

## Related Issues
- libssl-dev on Linux: `sudo apt-get install libssl-dev`
- Windows: Use vcpkg or download prebuilt binaries
- Docker: Add `RUN apk add --no-cache openssl-dev` to Dockerfile

This should resolve most OpenSSL-related build issues. If problems persist, check your project's specific requirements.

If you're still having issues:

1. Clean your build directory: `make clean`
2. Check your PATH: `echo $PATH`
3. Verify OpenSSL installation: `brew info openssl@3`
4. Try linking manually: `brew link openssl@3 --force`

## References

- [Homebrew OpenSSL Formula](https://formulae.brew.sh/formula/openssl@3)
- [Common macOS linking issues](https://github.com/openssl/openssl/issues)

This should resolve your OpenSSL linking error. If problems persist, check your project's specific build documentation."#;

pub const SAMPLE_QUESTION: &'static str = "I'm trying to compile my Rust project but getting linker errors about OpenSSL. I've tried installing it before but it doesn't seem to be working. Can you help me understand what's going wrong and how to fix it properly?";

/// The assistant's long answer, with markdown and code blocks.
pub const SAMPLE_ANSWER: &'static str = r#"I see you're getting an **OpenSSL error**. This is a very common issue when building projects that depend on OpenSSL for cryptographic functionality. Let me provide you with a comprehensive guide to resolve this issue on macOS.

## Quick Solution (Try This First)

The fastest way to resolve this is usually:

1. First, *check* if OpenSSL is installed:
   ```bash
   brew list openssl
   brew list | grep openssl
   ```

2. If **not installed**, run:
   ```bash
   brew install openssl@3
   # or for older projects:
   brew install openssl@1.1
   ```

3. Then set the environment variables:
   ```bash
   export OPENSSL_DIR=$(brew --prefix openssl)
   export PKG_CONFIG_PATH="$OPENSSL_DIR/lib/pkgconfig"
   export LDFLAGS="-L$OPENSSL_DIR/lib"
   export CPPFLAGS="-I$OPENSSL_DIR/include"
   # This is a very long line that should definitely trigger horizontal scrolling in the code block - it contains many characters and should exceed the width of the sidebar
   ```

4. Try running `make` again.

## Detailed Troubleshooting

If the quick solution doesn't work, here are more comprehensive steps:

### Step 1: Verify Your System
First, let's understand your environment:
```bash
# Check macOS version
sw_vers -productVersion

# Check architecture (Intel vs Apple Silicon)
uname -m

# Check Homebrew installation
brew --version
brew config
```

### Step 2: Clean Up Existing Installations
Sometimes conflicts arise from multiple OpenSSL installations:
```bash
# List all OpenSSL installations
brew list | grep openssl
ls -la /usr/local/opt/ | grep openssl
ls -la /opt/homebrew/opt/ | grep openssl

# If you have conflicts, uninstall all versions
brew uninstall --ignore-dependencies openssl@3
brew uninstall --ignore-dependencies openssl@1.1
brew uninstall --ignore-dependencies openssl
```

### Step 3: Install the Correct Version
Different projects require different OpenSSL versions:
```bash
# For modern projects (OpenSSL 3.x)
brew install openssl@3

# For older projects (OpenSSL 1.1)
brew install openssl@1.1

# Force link if needed
brew link openssl@3 --force
```

### Step 4: Configure pkg-config
The pkg-config tool helps compilers find libraries:
```bash
# Install pkg-config if missing
brew install pkg-config

# Verify it can find OpenSSL
pkg-config --modversion openssl
pkg-config --libs openssl
pkg-config --cflags openssl
```

### Alternative Solution
If the above doesn't work, you might need to:
```bash
# Install pkg-config
brew install pkg-config

# Or try using the system's built-in LibreSSL
export LDFLAGS="-L/usr/lib"
export CPPFLAGS="-I/usr/include"
```

## Platform-Specific Considerations

### Apple Silicon (M1/M2) Macs
Paths differ on Apple Silicon:
- Intel Macs: `/usr/local/opt/openssl`
- Apple Silicon: `/opt/homebrew/opt/openssl`

### macOS Ventura and Later
Apple has deprecated OpenSSL in favor of their own crypto libraries, which can cause additional complications.

This comprehensive guide should resolve most OpenSSL linking issues on macOS!"#;

pub const SAMPLE_FOLLOW_UP: &'static str = "Great! That worked. Now I'm seeing some warnings about deprecated functions.";

/// An answer holding an indented code block.
pub const SAMPLE_CODE_ANSWER: &'static str = r#"Here's a Python example showing proper error handling with indentation:

```python
def process_data(filename):
    """Process data from a file with proper error handling."""
    try:
        with open(filename, 'r') as file:
            data = file.read()
            # Process each line
            for line in data.splitlines():
                if line.strip():  # Skip empty lines
                    result = parse_line(line)
                    if result:
                        yield result
    except FileNotFoundError:
        print(f"Error: File '{filename}' not found")
        return None
    except PermissionError:
        print(f"Error: Permission denied for '{filename}'")
        return None
    finally:
        print("Processing complete")
```

This example demonstrates:
- Function definition with docstring
- Context manager (`with` statement)
- Nested indentation levels (up to 5 levels deep)
- Error handling with multiple `except` blocks
- The `finally` clause for cleanup"#;

/// How many items the sample log adds.
pub const SAMPLE_ITEMS: usize = 25;

/// What `Duration::from_secs` gives: a span of `secs` seconds.
pub uninterp spec fn duration_of_secs(secs: u64) -> Duration;

/// What `SystemTime::checked_sub` gives: the time `d` before `t`, or `None`
/// where the platform cannot represent that time.
pub uninterp spec fn time_minus(t: SystemTime, d: Duration) -> Option<SystemTime>;

/// `Duration::from_secs`: a span of `secs` seconds, a function of `secs`
/// alone.
#[verifier::external_body]
fn duration_from_secs(secs: u64) -> (d: Duration)
    ensures
        d == duration_of_secs(secs),
{
    Duration::from_secs(secs)
}

/// `SystemTime::checked_sub`: the time `d` before `t`, or `None` where the
/// platform cannot represent it; a function of `t` and `d` alone.
#[verifier::external_body]
fn time_checked_sub(t: SystemTime, d: Duration) -> (r: Option<SystemTime>)
    ensures
        r == time_minus(t, d),
{
    t.checked_sub(d)
}

/// A chat message with these texts.
pub open spec fn is_chat(item: ActivityItem, id: Seq<char>, message: Seq<char>, is_user: bool) -> bool {
    item matches ActivityItem::Chat { id: i, message: m, is_user: u, .. } && i@ == id && m@ == message
        && u == is_user
}

/// A command run in `pane1`, with this output and status.
pub open spec fn is_command(
    item: ActivityItem,
    id: Seq<char>,
    command: Seq<char>,
    output: Seq<char>,
    status: CommandStatus,
    expanded: bool,
) -> bool {
    &&& item matches ActivityItem::Command {
        id: i,
        command: c,
        output: Some(o),
        pane_id: Some(p),
        status: s,
        expanded: e,
        ..
    }
    &&& i@ == id
    &&& c@ == command
    &&& o@ == output
    &&& p@ == "pane1"@
    &&& s == status
    &&& e == expanded
}

/// Item `k` of the sample log: a failed build, a question, a long answer,
/// a follow-up, an answer with code, then twenty short items where every
/// third is a command (the even ones succeed) and the rest are messages
/// (the even ones from the user).
pub open spec fn is_sample_item(item: ActivityItem, k: int) -> bool {
    if k == 0 {
        is_command(
            item,
            "cmd1"@,
            "make (~/project)"@,
            "Error: OpenSSL not found"@,
            CommandStatus::Failed(1),
            true,
        )
    } else if k == 1 {
        is_chat(item, "chat1"@, SAMPLE_QUESTION@, true)
    } else if k == 2 {
        is_chat(item, "chat2"@, SAMPLE_ANSWER@, false)
    } else if k == 3 {
        is_chat(item, "chat3"@, SAMPLE_FOLLOW_UP@, true)
    } else if k == 4 {
        is_chat(item, "chat4"@, SAMPLE_CODE_ANSWER@, false)
    } else {
        let i = (k - 5) as nat;
        if i % 3 == 0 {
            is_command(
                item,
                "cmd"@ + decimal(i + 10),
                "test command "@ + decimal(i),
                "Output for command "@ + decimal(i),
                if i % 2 == 0 {
                    CommandStatus::Success
                } else {
                    CommandStatus::Failed(1)
                },
                false,
            )
        } else {
            is_chat(
                item,
                "chat"@ + decimal(i + 10),
                "Test message "@ + decimal(i) + " from "@ + (if i % 2 == 0 {
                    "user"@
                } else {
                    "AI"@
                }),
                i % 2 == 0,
            )
        }
    }
}

/// Seconds before now at which sample item `k` happened: a minute, half a
/// minute, 20, 10 and 5 seconds for the first five, then five minutes and a
/// minute more for each later item.
pub open spec fn sample_age_secs(k: int) -> int {
    if k == 0 {
        60
    } else if k == 1 {
        30
    } else if k == 2 {
        20
    } else if k == 3 {
        10
    } else if k == 4 {
        5
    } else {
        300 + (k - 5) * 60
    }
}

/// Seconds before now at which sample item `k` happened.
fn sample_age(k: usize) -> (secs: u64)
    requires
        k < SAMPLE_ITEMS,
    ensures
        secs == sample_age_secs(k as int),
{
    if k == 0 {
        60
    } else if k == 1 {
        30
    } else if k == 2 {
        20
    } else if k == 3 {
        10
    } else if k == 4 {
        5
    } else {
        300 + (k as u64 - 5) * 60
    }
}

fn text(s: &str) -> (t: String)
    ensures
        t@ == s@,
{
    String::from_str(s)
}

/// `prefix` followed by the decimal digits of `n`.
fn numbered(prefix: &str, n: usize) -> (t: String)
    ensures
        t@ == prefix@ + decimal(n as nat),
{
    let mut t = String::from_str(prefix);
    let digits = usize_to_string(n);
    t.append(digits.as_str());
    t
}

/// The time an item carries.
pub open spec fn item_time(item: ActivityItem) -> SystemTime {
    match item {
        ActivityItem::Command { timestamp, .. } => timestamp,
        ActivityItem::Chat { timestamp, .. } => timestamp,
        ActivityItem::Suggestion { timestamp, .. } => timestamp,
        ActivityItem::Goal { timestamp, .. } => timestamp,
    }
}

/// Sample item `k`, dated `at`.
fn sample_item(k: usize, at: SystemTime) -> (item: ActivityItem)
    requires
        k < SAMPLE_ITEMS,
    ensures
        is_sample_item(item, k as int),
        item_time(item) == at,
{
    if k == 0 {
        ActivityItem::Command {
            id: text("cmd1"),
            command: text("make (~/project)"),
            output: Some(text("Error: OpenSSL not found")),
            pane_id: Some(text("pane1")),
            status: CommandStatus::Failed(1),
            timestamp: at,
            expanded: true,
        }
    } else if k == 1 {
        ActivityItem::Chat { id: text("chat1"), message: text(SAMPLE_QUESTION), is_user: true, timestamp: at }
    } else if k == 2 {
        ActivityItem::Chat { id: text("chat2"), message: text(SAMPLE_ANSWER), is_user: false, timestamp: at }
    } else if k == 3 {
        ActivityItem::Chat { id: text("chat3"), message: text(SAMPLE_FOLLOW_UP), is_user: true, timestamp: at }
    } else if k == 4 {
        ActivityItem::Chat {
            id: text("chat4"),
            message: text(SAMPLE_CODE_ANSWER),
            is_user: false,
            timestamp: at,
        }
    } else {
        let i = k - 5;
        if i % 3 == 0 {
            ActivityItem::Command {
                id: numbered("cmd", i + 10),
                command: numbered("test command ", i),
                output: Some(numbered("Output for command ", i)),
                pane_id: Some(text("pane1")),
                status: if i % 2 == 0 {
                    CommandStatus::Success
                } else {
                    CommandStatus::Failed(1)
                },
                timestamp: at,
                expanded: false,
            }
        } else {
            let mut message = numbered("Test message ", i);
            message.append(" from ");
            if i % 2 == 0 {
                message.append("user");
            } else {
                message.append("AI");
            }
            ActivityItem::Chat { id: numbered("chat", i + 10), message, is_user: i % 2 == 0, timestamp: at }
        }
    }
}

/// The sidebar holds the sample content: the inferred goal, the suggestion
/// with a run action, the log grown by the sample items, the agent thinking.
pub open spec fn populated(before: AiSidebar, after: AiSidebar) -> bool {
    &&& after.current_goal matches Some(g) && g.text_spec() == SAMPLE_GOAL@ && g.ai_inferred_spec()
        && !g.confirmed_spec() && !g.editing_spec() && g.edit_text_spec() == Seq::<char>::empty()
    &&& after.current_suggestion matches Some(s) && s.title@ == SAMPLE_SUGGESTION_TITLE@ && s.content@
        == SAMPLE_SUGGESTION@ && s.has_action && (s.action_type matches Some(a) && a@ == "run"@)
    &&& after.activity_log@.len() == before.activity_log@.len() + SAMPLE_ITEMS
    &&& after.activity_log@.subrange(0, before.activity_log@.len() as int) == before.activity_log@
    &&& forall|k: int|
        0 <= k < SAMPLE_ITEMS ==> is_sample_item(
            #[trigger] after.activity_log@[before.activity_log@.len() + k],
            k,
        )
    &&& after.agent_mode == AgentMode::Thinking
    &&& after == (AiSidebar {
        current_goal: after.current_goal,
        current_suggestion: after.current_suggestion,
        activity_log: after.activity_log,
        agent_mode: after.agent_mode,
        ..before
    })
}

/// Every sample item has a time.
pub open spec fn all_dated(stamps: Seq<Option<SystemTime>>) -> bool {
    &&& stamps.len() == SAMPLE_ITEMS
    &&& forall|k: int| 0 <= k < stamps.len() ==> (#[trigger] stamps[k]) is Some
}

/// The dates of the sample items when it is `now`: item `k` is
/// `sample_age_secs(k)` seconds before now, where that can be represented.
pub open spec fn mock_stamps(now: SystemTime) -> Seq<Option<SystemTime>> {
    Seq::new(SAMPLE_ITEMS as nat, |k: int| time_minus(now, duration_of_secs(sample_age_secs(k) as u64)))
}

impl AiSidebar {
    /// Fills the sidebar with sample content, dated back from now. Returns
    /// false, and changes nothing, where a date so far back cannot be
    /// represented.
    pub fn populate_mock_data(&mut self) -> (ok: bool)
        ensures
            ok ==> populated(*old(self), *final(self)),
            !ok ==> *final(self) == *old(self),
            exists|now: SystemTime|
                ok == all_dated(#[trigger] mock_stamps(now)) && (ok ==> forall|k: int|
                    0 <= k < SAMPLE_ITEMS ==> Some(
                        item_time(#[trigger] final(self).activity_log@[old(self).activity_log@.len() + k]),
                    ) == mock_stamps(now)[k]),
    {
        let now = system_now();
        let mut stamps: Vec<Option<SystemTime>> = Vec::new();
        let mut k: usize = 0;
        while k < SAMPLE_ITEMS
            invariant
                k <= SAMPLE_ITEMS,
                stamps@.len() == k,
                forall|j: int| 0 <= j < k ==> #[trigger] stamps@[j] == mock_stamps(now)[j],
            decreases SAMPLE_ITEMS - k,
        {
            stamps.push(time_checked_sub(now, duration_from_secs(sample_age(k))));
            k = k + 1;
        }
        assert(stamps@ =~= mock_stamps(now));
        self.populate_mock_data_at(&stamps)
    }

    /// Fills the sidebar with sample content, item `k` dated `stamps[k]`:
    /// done exactly where there is a time for each of the sample items;
    /// otherwise nothing changes. Returns whether it was done.
    pub fn populate_mock_data_at(&mut self, stamps: &Vec<Option<SystemTime>>) -> (ok: bool)
        ensures
            ok == all_dated(stamps@),
            ok ==> populated(*old(self), *final(self)) && forall|k: int|
                0 <= k < SAMPLE_ITEMS ==> Some(
                    item_time(#[trigger] final(self).activity_log@[old(self).activity_log@.len() + k]),
                ) == stamps@[k],
            !ok ==> *final(self) == *old(self),
    {
        if stamps.len() != SAMPLE_ITEMS {
            return false;
        }
        let mut k: usize = 0;
        while k < SAMPLE_ITEMS
            invariant
                k <= SAMPLE_ITEMS,
                stamps@.len() == SAMPLE_ITEMS,
                forall|j: int| 0 <= j < k ==> (#[trigger] stamps@[j]) is Some,
            decreases SAMPLE_ITEMS - k,
        {
            if stamps[k].is_none() {
                return false;
            }
            k = k + 1;
        }
        let mut items: Vec<ActivityItem> = Vec::new();
        let mut k: usize = 0;
        while k < SAMPLE_ITEMS
            invariant
                k <= SAMPLE_ITEMS,
                all_dated(stamps@),
                items@.len() == k,
                forall|j: int| 0 <= j < k ==> is_sample_item(#[trigger] items@[j], j),
                forall|j: int| 0 <= j < k ==> Some(item_time(#[trigger] items@[j])) == stamps@[j],
            decreases SAMPLE_ITEMS - k,
        {
            let at = stamps[k].unwrap();
            items.push(sample_item(k, at));
            k = k + 1;
        }
        let ghost before = self.activity_log@;
        let ghost added = items@;
        self.current_goal = Some(CurrentGoal::inferred(text(SAMPLE_GOAL)));
        self.current_suggestion = Some(
            CurrentSuggestion {
                title: text(SAMPLE_SUGGESTION_TITLE),
                content: text(SAMPLE_SUGGESTION),
                has_action: true,
                action_type: Some(text("run")),
            },
        );
        self.activity_log.append(&mut items);
        self.agent_mode = AgentMode::Thinking;
        proof {
            assert(self.activity_log@.subrange(0, before.len() as int) =~= before);
            assert forall|k: int| 0 <= k < SAMPLE_ITEMS implies is_sample_item(
                #[trigger] self.activity_log@[before.len() + k],
                k,
            ) && Some(item_time(self.activity_log@[before.len() + k])) == stamps@[k] by {
                assert(self.activity_log@[before.len() + k] == added[k]);
            }
        }
        true
    }
}

} // verus!
