# agent_browser

The decisions of a browser-automation daemon, written in Verus: what a command asks
for, which commands go to the browser and in what order, what becomes of an intercepted
request, how captured traffic is written down, and what is answered. Each decision is a
function with a contract that says what it returns for every input.

- `src/` is the verified library. `json`, `text` and `number` are its ground;
  `outside` holds the calls into other crates, with what is claimed of each.
  `input` and `swipe` are about input events, `routes`, `glob` and `fetch` about
  interception, `requests` and `har` about captured traffic, `options` and `launch`
  about launching a browser, `auth` and `login` about signing in, `confirm` about
  commands that wait for the user, `upgrade` about upgrading the program.
- `app/` carries the decisions out. What it needs of the browser and of the system is
  stated as traits in `app/services.rs`. Arithmetic on floating-point numbers is done
  there, too.
- `tests/` runs the library on concrete values.

Functions whose names begin with `law_` state what holds of several functions together.
