# kotomori

The library behind kotomori, a terminal chat client for language models:
how the screen is laid out and wrapped, how typed text and slash commands
behave, how a transcript of a conversation is drawn, and how command output
becomes a tool result. The library's own functions are verified with Verus,
most of them against a contract that pins their result down. Calls into
outside crates and into parts of std that Verus has no specification for go
through small trusted wrappers, marked `#[verifier::external_body]`: Verus
believes their contracts without proof, and each wrapper's doc comment says
what it claims of the outside function and what it leaves unsaid.

## Layout

- `src/` — the verified library.
  - `text`, `width`, `wrap`, `style`, `span_list`: characters, display widths,
    styled spans, and greedy wrapping of styled text.
  - `component/`: the pieces of the screen (lines, framed and guttered lines,
    the transcript and its entries, the composer, header, footer, approval
    prompt, session picker) and the view that lays them out with padding.
  - `line`, `framed_lines`, `header`, `hint`, `footer`, `approval_prompt`:
    the same pieces over plain vectors of spans.
  - `composer`, `action`, `command`, `commands`, `input_mode`,
    `approval_request`, `channel`: the text being typed (kept in a
    `ratatui_textarea::TextArea`), key presses, slash commands and their menu,
    what submitting does, requests to approve a tool call, and the event
    queue.
  - `changed_range`, `frame`, `cursor`: what changed between two frames and
    where the terminal cursor has to go.
  - `model`, `message`, `tool`, `transcript`, `completion_request`: the
    conversation.
  - `execution`, `command_invocation`, `command_output`, `line_stream`, `loader`,
    `directory_display`, `database`, `duration_ext`: command output limits,
    streamed lines, agent instruction files, the working directory as shown,
    schema migrations and how a session is saved, and elapsed times.
- `tests/` — tests of the library, run against the compiled crate.
- `app/` — the program: arguments, configuration, the session database, the
  terminal loop, and running a tool's command.
